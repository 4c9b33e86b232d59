//! Character-level text utilities shared by the parsers and validators.
//!
//! Strings are handled as sequences of Unicode scalar values (`Seq<char>`),
//! the view that `str` and `String` have.

use vstd::prelude::*;

verus! {

/// The characters of `s`, in order.
pub fn chars_of(s: &str) -> (v: Vec<char>)
    ensures
        v@ == s@,
{
    let mut v: Vec<char> = Vec::new();
    for c in it: s.chars()
        invariant
            v@ == it.seq().take(it.index() as int),
            it.seq() == s@,
    {
        v.push(c);
    }
    v
}

/// `String::push`: appends one character.
#[verifier::external_body]
pub fn push_char(s: &mut String, c: char)
    ensures
        final(s)@ == old(s)@.push(c),
{
    s.push(c);
}

/// The string made of the characters `v[lo..hi]`.
pub fn string_from_range(v: &Vec<char>, lo: usize, hi: usize) -> (s: String)
    requires
        lo <= hi <= v.len(),
    ensures
        s@ == v@.subrange(lo as int, hi as int),
{
    let mut s = String::new();
    let mut i = lo;
    while i < hi
        invariant
            lo <= i <= hi <= v.len(),
            s@ == v@.subrange(lo as int, i as int),
        decreases hi - i,
    {
        push_char(&mut s, v[i]);
        assert(v@.subrange(lo as int, i + 1) == v@.subrange(lo as int, i as int).push(v@[i as int]));
        i = i + 1;
    }
    s
}

/// The string made of all the characters of `v`.
pub fn string_from_chars(v: &Vec<char>) -> (s: String)
    ensures
        s@ == v@,
{
    let s = string_from_range(v, 0, v.len());
    assert(v@.subrange(0, v@.len() as int) == v@);
    s
}

/// Appends the characters `t` to `s`.
pub fn push_seq(s: &mut String, t: &str)
    ensures
        final(s)@ == old(s)@ + t@,
{
    let ghost s0 = s@;
    for c in it: t.chars()
        invariant
            s@ == s0 + it.seq().take(it.index() as int),
            it.seq() == t@,
    {
        push_char(s, c);
        assert(it.seq().take(it.index() + 1) == it.seq().take(it.index() as int).push(c));
    }
    assert(t@.take(t@.len() as int) == t@);
}

/// Unicode `White_Space`, the property that `char::is_whitespace` tests.
pub open spec fn is_white_space(c: char) -> bool {
    ||| ('\u{9}' <= c && c <= '\u{d}')
    ||| c == ' '
    ||| c == '\u{85}'
    ||| c == '\u{a0}'
    ||| c == '\u{1680}'
    ||| ('\u{2000}' <= c && c <= '\u{200a}')
    ||| c == '\u{2028}'
    ||| c == '\u{2029}'
    ||| c == '\u{202f}'
    ||| c == '\u{205f}'
    ||| c == '\u{3000}'
}

/// Unicode general category `Cc`, the property that `char::is_control` tests.
pub open spec fn is_control_char(c: char) -> bool {
    c <= '\u{1f}' || ('\u{7f}' <= c && c <= '\u{9f}')
}

/// An ASCII decimal digit.
pub open spec fn is_digit_char(c: char) -> bool {
    '0' <= c && c <= '9'
}

/// Whether `c` is white space, as `char::is_whitespace` says.
pub fn is_whitespace(c: char) -> (b: bool)
    ensures
        b == is_white_space(c),
{
    ('\u{9}' <= c && c <= '\u{d}') || c == ' ' || c == '\u{85}' || c == '\u{a0}' || c
        == '\u{1680}' || ('\u{2000}' <= c && c <= '\u{200a}') || c == '\u{2028}' || c
        == '\u{2029}' || c == '\u{202f}' || c == '\u{205f}' || c == '\u{3000}'
}

/// Whether `c` is a control character, as `char::is_control` says.
pub fn is_control(c: char) -> (b: bool)
    ensures
        b == is_control_char(c),
{
    c <= '\u{1f}' || ('\u{7f}' <= c && c <= '\u{9f}')
}

/// Whether `c` is an ASCII digit, as `char::is_ascii_digit` says.
pub fn is_ascii_digit(c: char) -> (b: bool)
    ensures
        b == is_digit_char(c),
{
    '0' <= c && c <= '9'
}

/// `s` without its leading white space.
pub open spec fn trim_start(s: Seq<char>) -> Seq<char>
    decreases s.len(),
{
    if s.len() > 0 && is_white_space(s[0]) {
        trim_start(s.drop_first())
    } else {
        s
    }
}

/// `s` without its trailing white space.
pub open spec fn trim_end(s: Seq<char>) -> Seq<char>
    decreases s.len(),
{
    if s.len() > 0 && is_white_space(s.last()) {
        trim_end(s.drop_last())
    } else {
        s
    }
}

/// `s` without leading and trailing white space, as `str::trim` gives it.
pub open spec fn trim(s: Seq<char>) -> Seq<char> {
    trim_end(trim_start(s))
}

proof fn lemma_trim_start_step(s: Seq<char>, lo: int, i: int, hi: int)
    requires
        0 <= lo <= i < hi <= s.len(),
        trim_start(s.subrange(lo, hi)) == trim_start(s.subrange(i, hi)),
        is_white_space(s[i]),
    ensures
        trim_start(s.subrange(lo, hi)) == trim_start(s.subrange(i + 1, hi)),
{
    assert(s.subrange(i, hi).drop_first() == s.subrange(i + 1, hi));
}

proof fn lemma_trim_end_step(s: Seq<char>, lo: int, j: int, hi: int)
    requires
        0 <= lo < j <= hi <= s.len(),
        trim_end(s.subrange(lo, hi)) == trim_end(s.subrange(lo, j)),
        is_white_space(s[j - 1]),
    ensures
        trim_end(s.subrange(lo, hi)) == trim_end(s.subrange(lo, j - 1)),
{
    assert(s.subrange(lo, j).drop_last() == s.subrange(lo, j - 1));
}

/// The bounds `(a, b)` of the trimmed part of `v[lo..hi]`.
pub fn trim_range(v: &Vec<char>, lo: usize, hi: usize) -> (r: (usize, usize))
    requires
        lo <= hi <= v.len(),
    ensures
        lo <= r.0 <= r.1 <= hi,
        v@.subrange(r.0 as int, r.1 as int) == trim(v@.subrange(lo as int, hi as int)),
{
    let mut i = lo;
    while i < hi && is_whitespace(v[i])
        invariant
            lo <= i <= hi <= v.len(),
            trim_start(v@.subrange(lo as int, hi as int)) == trim_start(v@.subrange(i as int, hi as int)),
        decreases hi - i,
    {
        proof {
            lemma_trim_start_step(v@, lo as int, i as int, hi as int);
        }
        i = i + 1;
    }
    assert(trim_start(v@.subrange(i as int, hi as int)) == v@.subrange(i as int, hi as int));
    let mut j = hi;
    while j > i && is_whitespace(v[j - 1])
        invariant
            lo <= i <= j <= hi <= v.len(),
            trim_end(v@.subrange(i as int, hi as int)) == trim_end(v@.subrange(i as int, j as int)),
        decreases j - i,
    {
        proof {
            lemma_trim_end_step(v@, i as int, j as int, hi as int);
        }
        j = j - 1;
    }
    assert(trim_end(v@.subrange(i as int, j as int)) == v@.subrange(i as int, j as int));
    (i, j)
}

/// `str::trim`, as a new string.
pub fn trim_str(s: &str) -> (t: String)
    ensures
        t@ == trim(s@),
{
    let v = chars_of(s);
    let (a, b) = trim_range(&v, 0, v.len());
    assert(v@.subrange(0, v@.len() as int) == v@);
    string_from_range(&v, a, b)
}

/// The index of the first `c` in `s` at or after `from`, if any.
pub open spec fn find_from(s: Seq<char>, c: char, from: int) -> Option<int>
    decreases s.len() - from,
{
    if from < 0 || from >= s.len() {
        None
    } else if s[from] == c {
        Some(from)
    } else {
        find_from(s, c, from + 1)
    }
}

/// The pieces of `s` between occurrences of `c`, as `str::split` with a
/// character pattern gives them (always at least one piece).
pub open spec fn split(s: Seq<char>, c: char) -> Seq<Seq<char>>
    decreases s.len(),
{
    match find_from(s, c, 0) {
        None => seq![s],
        Some(k) => if 0 <= k < s.len() {
            seq![s.take(k)] + split(s.skip(k + 1), c)
        } else {
            seq![s]
        },
    }
}

/// The lines of `s`, as `str::lines` gives them: pieces ending at each
/// `'\n'` (which is dropped, together with a `'\r'` right before it), and a
/// last piece when text follows the last `'\n'`.
pub open spec fn lines(s: Seq<char>) -> Seq<Seq<char>>
    decreases s.len(),
{
    if s.len() == 0 {
        seq![]
    } else {
        match find_from(s, '\n', 0) {
            None => seq![s],
            Some(k) => if 0 <= k < s.len() {
                seq![strip_cr(s.take(k))] + lines(s.skip(k + 1))
            } else {
                seq![s]
            },
        }
    }
}

/// `s` without one trailing `'\r'`.
pub open spec fn strip_cr(s: Seq<char>) -> Seq<char> {
    if s.len() > 0 && s.last() == '\r' {
        s.drop_last()
    } else {
        s
    }
}

proof fn lemma_find_from_shift(s: Seq<char>, c: char, lo: int, i: int)
    requires
        0 <= lo <= i <= s.len(),
        forall|j: int| lo <= j < i ==> s[j] != c,
    ensures
        find_from(s.skip(lo), c, 0) == (match find_from(s, c, i) {
            Some(k) => Some(k - lo),
            None => None::<int>,
        }),
    decreases i - lo,
{
    if i == lo {
        lemma_find_from_offset(s, c, lo, 0);
    } else {
        lemma_find_from_shift(s, c, lo, i - 1);
        lemma_find_from_skip_one(s, c, i - 1);
    }
}

proof fn lemma_find_from_skip_one(s: Seq<char>, c: char, i: int)
    requires
        0 <= i < s.len(),
        s[i] != c,
    ensures
        find_from(s, c, i) == find_from(s, c, i + 1),
{
}

proof fn lemma_find_from_offset(s: Seq<char>, c: char, lo: int, j: int)
    requires
        0 <= lo <= s.len(),
        0 <= j,
    ensures
        find_from(s.skip(lo), c, j) == (match find_from(s, c, lo + j) {
            Some(k) => Some(k - lo),
            None => None::<int>,
        }),
    decreases s.len() - lo - j,
{
    if lo + j < s.len() {
        lemma_find_from_offset(s, c, lo, j + 1);
    }
}

/// Scans `v[lo..hi]` for the first `c`: its index, or `hi` when there is none.
pub fn find_char(v: &Vec<char>, c: char, lo: usize, hi: usize) -> (k: usize)
    requires
        lo <= hi <= v.len(),
    ensures
        lo <= k <= hi,
        forall|j: int| lo <= j < k ==> v@[j] != c,
        k < hi ==> v@[k as int] == c,
        find_from(v@.subrange(lo as int, hi as int), c, 0) == (if k < hi {
            Some(k - lo)
        } else {
            None::<int>
        }),
{
    let mut i = lo;
    while i < hi && v[i] != c
        invariant
            lo <= i <= hi <= v.len(),
            forall|j: int| lo <= j < i ==> v@[j] != c,
        decreases hi - i,
    {
        i = i + 1;
    }
    proof {
        let s = v@.subrange(0, hi as int);
        assert(v@.subrange(lo as int, hi as int) == s.skip(lo as int));
        assert forall|j: int| lo <= j < i implies s[j] != c by {}
        lemma_find_from_shift(s, c, lo as int, i as int);
        if i < hi {
            assert(s[i as int] == c);
        }
    }
    i
}

/// Finds the next line of `v` from `pos`: the line is `v[start..end]` and
/// the text after it starts at `next`.
pub fn next_line(v: &Vec<char>, pos: usize) -> (r: (usize, usize, usize))
    requires
        pos < v.len(),
    ensures
        pos <= r.0 <= r.1 < r.2 <= v.len() || (pos <= r.0 <= r.1 == r.2 == v.len()),
        pos < r.2,
        lines(v@.skip(pos as int)) == seq![v@.subrange(r.0 as int, r.1 as int)] + lines(
            v@.skip(r.2 as int),
        ),
{
    let len = v.len();
    let k = find_char(v, '\n', pos, len);
    let ghost s = v@.skip(pos as int);
    assert(v@.subrange(pos as int, len as int) == s);
    if k == len {
        assert(v@.skip(len as int).len() == 0);
        assert(v@.subrange(pos as int, len as int) == s);
        (pos, len, len)
    } else {
        assert(s.take(k - pos) == v@.subrange(pos as int, k as int));
        assert(s.skip(k - pos + 1) == v@.skip(k + 1));
        let end = if k > pos && v[k - 1] == '\r' {
            k - 1
        } else {
            k
        };
        assert(strip_cr(v@.subrange(pos as int, k as int)) == v@.subrange(pos as int, end as int));
        (pos, end, k + 1)
    }
}

/// The pieces of `v[lo..hi]` between occurrences of `c`, as index ranges.
pub fn split_ranges(v: &Vec<char>, lo: usize, hi: usize, c: char) -> (r: Vec<(usize, usize)>)
    requires
        lo <= hi <= v.len(),
    ensures
        r@.len() == split(v@.subrange(lo as int, hi as int), c).len(),
        forall|i: int|
            0 <= i < r@.len() ==> lo <= (#[trigger] r@[i]).0 <= r@[i].1 <= hi && v@.subrange(
                r@[i].0 as int,
                r@[i].1 as int,
            ) == split(v@.subrange(lo as int, hi as int), c)[i],
{
    let mut r: Vec<(usize, usize)> = Vec::new();
    let mut start = lo;
    let ghost whole = split(v@.subrange(lo as int, hi as int), c);
    loop
        invariant
            lo <= start <= hi <= v.len(),
            whole == split(v@.subrange(lo as int, hi as int), c),
            whole == r@.map_values(|p: (usize, usize)| v@.subrange(p.0 as int, p.1 as int))
                + split(v@.subrange(start as int, hi as int), c),
            forall|i: int| 0 <= i < r@.len() ==> lo <= (#[trigger] r@[i]).0 <= r@[i].1 <= hi,
        decreases hi - start,
    {
        let k = find_char(v, c, start, hi);
        let ghost s = v@.subrange(start as int, hi as int);
        let ghost before = r@;
        if k == hi {
            r.push((start, hi));
            assert(split(s, c) == seq![s]);
            assert(r@.map_values(|p: (usize, usize)| v@.subrange(p.0 as int, p.1 as int))
                == before.map_values(|p: (usize, usize)| v@.subrange(p.0 as int, p.1 as int)).push(s));
            proof {
                let m = r@.map_values(|p: (usize, usize)| v@.subrange(p.0 as int, p.1 as int));
                assert(whole == m);
                assert forall|i: int| 0 <= i < r@.len() implies v@.subrange(
                    (#[trigger] r@[i]).0 as int,
                    r@[i].1 as int,
                ) == whole[i] by {
                    assert(m[i] == v@.subrange(r@[i].0 as int, r@[i].1 as int));
                }
            }
            return r;
        }
        assert(s.take(k - start) == v@.subrange(start as int, k as int));
        assert(s.skip(k - start + 1) == v@.subrange(k + 1, hi as int));
        r.push((start, k));
        assert(r@.map_values(|p: (usize, usize)| v@.subrange(p.0 as int, p.1 as int))
            == before.map_values(|p: (usize, usize)| v@.subrange(p.0 as int, p.1 as int)).push(
            v@.subrange(start as int, k as int),
        ));
        start = k + 1;
    }
}

/// Whether `needle` occurs in `hay`, as `str::contains` with a string
/// pattern says (the empty needle occurs everywhere).
pub open spec fn contains(hay: Seq<char>, needle: Seq<char>) -> bool {
    exists|i: int|
        0 <= i && i + needle.len() <= hay.len() && #[trigger] hay.subrange(i, i + needle.len())
            == needle
}

/// Whether `needle` occurs in `hay[lo..hi]`.
pub fn contains_in(hay: &Vec<char>, lo: usize, hi: usize, needle: &Vec<char>) -> (b: bool)
    requires
        lo <= hi <= hay.len(),
    ensures
        b == contains(hay@.subrange(lo as int, hi as int), needle@),
{
    let ghost h = hay@.subrange(lo as int, hi as int);
    let n = needle.len();
    if n > hi - lo {
        return false;
    }
    let mut i = lo;
    while n <= hi - i
        invariant
            lo <= i <= hi <= hay.len(),
            n == needle@.len(),
            h == hay@.subrange(lo as int, hi as int),
            forall|k: int| 0 <= k < i - lo ==> #[trigger] h.subrange(k, k + n) != needle@,
        decreases hi - i,
    {
        let mut j: usize = 0;
        while j < n && hay[i + j] == needle[j]
            invariant
                lo <= i,
                i + n <= hi <= hay.len(),
                n == needle@.len(),
                0 <= j <= n,
                forall|t: int| 0 <= t < j ==> hay@[i + t] == needle@[t],
            decreases n - j,
        {
            j = j + 1;
        }
        if j == n {
            assert(h.subrange(i - lo, i - lo + n) == needle@);
            return true;
        }
        assert(h.subrange(i - lo, i - lo + n)[j as int] != needle@[j as int]);
        i = i + 1;
    }
    assert forall|k: int| 0 <= k && k + n <= h.len() implies #[trigger] h.subrange(k, k + n)
        != needle@ by {}
    false
}

/// `str::contains` with a string pattern.
pub fn str_contains(hay: &str, needle: &str) -> (b: bool)
    ensures
        b == contains(hay@, needle@),
{
    let h = chars_of(hay);
    let n = chars_of(needle);
    assert(h@.subrange(0, h@.len() as int) == h@);
    contains_in(&h, 0, h.len(), &n)
}

/// The value of a string of ASCII digits.
pub open spec fn digits_value(s: Seq<char>) -> nat
    decreases s.len(),
{
    if s.len() == 0 {
        0
    } else {
        digits_value(s.drop_last()) * 10 + (s.last() as nat - '0' as nat) as nat
    }
}

/// Every character of `s` is an ASCII digit.
pub open spec fn all_digits(s: Seq<char>) -> bool {
    forall|i: int| 0 <= i < s.len() ==> is_digit_char(#[trigger] s[i])
}

/// What `str::parse::<i32>` gives: an optional `+` or `-` sign, then at least
/// one ASCII digit and nothing else, the value in range.
pub open spec fn parse_i32(s: Seq<char>) -> Option<i32> {
    let signed = s.len() > 0 && (s[0] == '+' || s[0] == '-');
    let body = if signed {
        s.drop_first()
    } else {
        s
    };
    if body.len() == 0 || !all_digits(body) {
        None
    } else if signed && s[0] == '-' {
        if digits_value(body) <= 2147483648 {
            Some((0 - digits_value(body)) as i32)
        } else {
            None
        }
    } else if digits_value(body) <= 2147483647 {
        Some(digits_value(body) as i32)
    } else {
        None
    }
}

/// `str::parse::<i32>` on `v[lo..hi]`.
pub fn parse_i32_range(v: &Vec<char>, lo: usize, hi: usize) -> (r: Option<i32>)
    requires
        lo <= hi <= v.len(),
    ensures
        r == parse_i32(v@.subrange(lo as int, hi as int)),
{
    let ghost s = v@.subrange(lo as int, hi as int);
    let signed = lo < hi && (v[lo] == '+' || v[lo] == '-');
    let negative = signed && v[lo] == '-';
    let start = if signed {
        lo + 1
    } else {
        lo
    };
    let ghost body = v@.subrange(start as int, hi as int);
    assert(body == (if signed {
        s.drop_first()
    } else {
        s
    }));
    assert(s.len() > 0 ==> s[0] == v@[lo as int]);
    if start == hi {
        return None;
    }
    let cap: u64 = 2147483649;
    let mut acc: u64 = 0;
    let mut i = start;
    while i < hi
        invariant
            lo <= start <= i <= hi <= v.len(),
            body == v@.subrange(start as int, hi as int),
            s == v@.subrange(lo as int, hi as int),
            signed == (s.len() > 0 && (s[0] == '+' || s[0] == '-')),
            negative == (signed && s[0] == '-'),
            body == (if signed {
                s.drop_first()
            } else {
                s
            }),
            all_digits(v@.subrange(start as int, i as int)),
            acc as int == if digits_value(v@.subrange(start as int, i as int)) < cap {
                digits_value(v@.subrange(start as int, i as int)) as int
            } else {
                cap as int
            },
            cap == 2147483649,
        decreases hi - i,
    {
        let c = v[i];
        if !is_ascii_digit(c) {
            assert(body[i - start] == c);
            assert(!all_digits(body));
            return None;
        }
        let ghost pre = v@.subrange(start as int, i as int);
        assert(v@.subrange(start as int, i + 1).drop_last() == pre);
        let d = (c as u32 - '0' as u32) as u64;
        let next = acc * 10 + d;
        acc = if next < cap {
            next
        } else {
            cap
        };
        i = i + 1;
    }
    assert(v@.subrange(start as int, hi as int) == body);
    if negative {
        if acc <= 2147483648 {
            Some((0 - acc as i64) as i32)
        } else {
            None
        }
    } else if acc <= 2147483647 {
        Some(acc as i32)
    } else {
        None
    }
}

/// The digit character for `d < 10`.
pub open spec fn digit_char(d: nat) -> char {
    if d == 0 {
        '0'
    } else if d == 1 {
        '1'
    } else if d == 2 {
        '2'
    } else if d == 3 {
        '3'
    } else if d == 4 {
        '4'
    } else if d == 5 {
        '5'
    } else if d == 6 {
        '6'
    } else if d == 7 {
        '7'
    } else if d == 8 {
        '8'
    } else {
        '9'
    }
}

/// The decimal notation of `n`, as `Display` writes it for unsigned integers.
pub open spec fn decimal(n: nat) -> Seq<char>
    decreases n,
{
    if n < 10 {
        seq![digit_char(n)]
    } else {
        decimal(n / 10).push(digit_char(n % 10))
    }
}

/// The decimal notation of `n` padded with leading zeros to at least
/// `width` characters, as the format `{:0width$}` writes it.
pub open spec fn zero_padded(n: nat, width: nat) -> Seq<char> {
    let d = decimal(n);
    if d.len() < width {
        Seq::new((width - d.len()) as nat, |i: int| '0') + d
    } else {
        d
    }
}

fn digit(d: u64) -> (c: char)
    requires
        d < 10,
    ensures
        c == digit_char(d as nat),
{
    if d == 0 {
        '0'
    } else if d == 1 {
        '1'
    } else if d == 2 {
        '2'
    } else if d == 3 {
        '3'
    } else if d == 4 {
        '4'
    } else if d == 5 {
        '5'
    } else if d == 6 {
        '6'
    } else if d == 7 {
        '7'
    } else if d == 8 {
        '8'
    } else {
        '9'
    }
}

/// Appends the decimal notation of `n`.
pub fn push_decimal(s: &mut String, n: u64)
    ensures
        final(s)@ == old(s)@ + decimal(n as nat),
    decreases n,
{
    if n >= 10 {
        push_decimal(s, n / 10);
    }
    push_char(s, digit(n % 10));
}

/// `10` to the power `j`.
pub open spec fn pow10(j: nat) -> nat
    decreases j,
{
    if j == 0 {
        1
    } else {
        10 * pow10((j - 1) as nat)
    }
}

proof fn lemma_decimal_len_bound(n: nat, j: nat)
    requires
        j >= 1,
        n < pow10(j),
    ensures
        decimal(n).len() <= j,
    decreases n,
{
    if n >= 10 {
        let p = pow10((j - 1) as nat);
        if j == 1 {
            assert(pow10(0) == 1);
        }
        assert(n / 10 < p) by (nonlinear_arith)
            requires
                n < 10 * p,
        ;
        lemma_decimal_len_bound(n / 10, (j - 1) as nat);
    }
}

proof fn lemma_u64_decimal_len(n: u64)
    ensures
        decimal(n as nat).len() <= 20,
{
    reveal_with_fuel(pow10, 21);
    assert(pow10(20) == 100000000000000000000);
    lemma_decimal_len_bound(n as nat, 20);
}

/// The number of characters of the decimal notation of `n`.
pub fn decimal_len(n: u64) -> (k: usize)
    ensures
        k == decimal(n as nat).len(),
    decreases n,
{
    if n >= 10 {
        proof {
            lemma_u64_decimal_len(n / 10);
        }
        decimal_len(n / 10) + 1
    } else {
        1
    }
}

/// Appends the decimal notation of `n`, padded with zeros to `width`.
pub fn push_zero_padded(s: &mut String, n: u64, width: usize)
    ensures
        final(s)@ == old(s)@ + zero_padded(n as nat, width as nat),
{
    let len = decimal_len(n);
    let ghost s0 = s@;
    if len < width {
        let mut i = len;
        while i < width
            invariant
                len <= i <= width,
                s@ == s0 + Seq::new((i - len) as nat, |j: int| '0'),
            decreases width - i,
        {
            push_char(s, '0');
            assert(Seq::new((i + 1 - len) as nat, |j: int| '0') == Seq::new(
                (i - len) as nat,
                |j: int| '0',
            ).push('0'));
            i = i + 1;
        }
    }
    push_decimal(s, n);
    assert(s@ == s0 + zero_padded(n as nat, width as nat));
}

proof fn lemma_digits_value_push(s: Seq<char>, c: char)
    ensures
        digits_value(s.push(c)) == digits_value(s) * 10 + (c as nat - '0' as nat) as nat,
{
    assert(s.push(c).drop_last() == s);
}

proof fn lemma_digit_char_value(d: nat)
    requires
        d < 10,
    ensures
        (digit_char(d) as nat - '0' as nat) as nat == d,
{
}

/// Reading back the decimal notation of `n` gives `n`.
pub proof fn decimal_value(n: nat)
    ensures
        digits_value(decimal(n)) == n,
        all_digits(decimal(n)),
    decreases n,
{
    if n < 10 {
        lemma_digits_value_push(Seq::empty(), digit_char(n));
        assert(seq![digit_char(n)] == Seq::<char>::empty().push(digit_char(n)));
        lemma_digit_char_value(n);
    } else {
        decimal_value(n / 10);
        lemma_digits_value_push(decimal(n / 10), digit_char(n % 10));
        lemma_digit_char_value(n % 10);
        let d = decimal(n / 10).push(digit_char(n % 10));
        assert forall|i: int| 0 <= i < d.len() implies is_digit_char(#[trigger] d[i]) by {
            if i < d.len() - 1 {
                assert(d[i] == decimal(n / 10)[i]);
            }
        }
    }
}

proof fn lemma_zeros_value(z: Seq<char>, s: Seq<char>)
    requires
        forall|i: int| 0 <= i < z.len() ==> z[i] == '0',
    ensures
        digits_value(z + s) == digits_value(s),
    decreases s.len(),
{
    if s.len() == 0 {
        lemma_zeros_only(z);
        assert(z + s == z);
    } else {
        lemma_zeros_value(z, s.drop_last());
        assert((z + s).drop_last() == z + s.drop_last());
        assert((z + s).last() == s.last());
    }
}

proof fn lemma_zeros_only(z: Seq<char>)
    requires
        forall|i: int| 0 <= i < z.len() ==> z[i] == '0',
    ensures
        digits_value(z) == 0,
    decreases z.len(),
{
    if z.len() > 0 {
        lemma_zeros_only(z.drop_last());
    }
}

/// Reading back the zero-padded notation of `n` gives `n`: different
/// numbers have different padded notations.
pub proof fn zero_padded_value(n: nat, width: nat)
    ensures
        digits_value(zero_padded(n, width)) == n,
{
    decimal_value(n);
    let d = decimal(n);
    if d.len() < width {
        let z = Seq::new((width - d.len()) as nat, |i: int| '0');
        lemma_zeros_value(z, d);
    }
}

/// `parts` joined with `sep` in between, as `[T]::join` gives it.
pub open spec fn join(parts: Seq<Seq<char>>, sep: Seq<char>) -> Seq<char>
    decreases parts.len(),
{
    if parts.len() == 0 {
        seq![]
    } else if parts.len() == 1 {
        parts[0]
    } else {
        join(parts.drop_last(), sep) + sep + parts.last()
    }
}

/// Whether `c` is an ASCII character.
pub open spec fn is_ascii_char(c: char) -> bool {
    (c as u32) < 128
}

/// Whether every character of `s` is ASCII.
pub open spec fn all_ascii(s: Seq<char>) -> bool {
    forall|i: int| 0 <= i < s.len() ==> is_ascii_char(#[trigger] s[i])
}

/// An ASCII letter or digit.
pub open spec fn is_ascii_alnum(c: char) -> bool {
    ||| ('0' <= c && c <= '9')
    ||| ('A' <= c && c <= 'Z')
    ||| ('a' <= c && c <= 'z')
}

/// `c` with an ASCII capital mapped to its small letter; any other
/// character unchanged.
pub open spec fn ascii_lower_char(c: char) -> char {
    if 'A' <= c && c <= 'Z' {
        ((c as u32) + 32) as char
    } else {
        c
    }
}

/// `s` with every ASCII capital mapped to its small letter.
pub open spec fn ascii_lower(s: Seq<char>) -> Seq<char> {
    s.map_values(|c: char| ascii_lower_char(c))
}

/// Unicode lower-case mapping of a whole string, as `str::to_lowercase`
/// computes it.
pub uninterp spec fn lowercase(s: Seq<char>) -> Seq<char>;

/// `str::to_lowercase`: the Unicode lower-case mapping, which on ASCII
/// text maps `A`..`Z` to `a`..`z` and leaves every other character as it is.
#[verifier::external_body]
pub fn to_lowercase(s: &str) -> (r: String)
    ensures
        r@ == lowercase(s@),
        all_ascii(s@) ==> r@ == ascii_lower(s@),
{
    s.to_lowercase()
}

/// Unicode `Alphabetic` or `Numeric`, as `char::is_alphanumeric` tests it.
pub uninterp spec fn alphanumeric(c: char) -> bool;

/// `char::is_alphanumeric`: `Alphabetic` or `Numeric`, which among ASCII
/// characters are exactly the letters and the digits.
#[verifier::external_body]
pub fn is_alphanumeric(c: char) -> (b: bool)
    ensures
        b == alphanumeric(c),
        is_ascii_char(c) ==> b == is_ascii_alnum(c),
{
    c.is_alphanumeric()
}

/// Whether two strings hold the same characters.
pub fn str_equal(a: &str, b: &str) -> (r: bool)
    ensures
        r == (a@ == b@),
{
    let x = chars_of(a);
    let y = chars_of(b);
    if x.len() != y.len() {
        return false;
    }
    let mut i: usize = 0;
    while i < x.len()
        invariant
            x@ == a@,
            y@ == b@,
            x.len() == y.len(),
            i <= x.len(),
            forall|j: int| 0 <= j < i ==> x@[j] == y@[j],
        decreases x.len() - i,
    {
        if x[i] != y[i] {
            assert(a@[i as int] != b@[i as int]);
            return false;
        }
        i = i + 1;
    }
    assert(a@ =~= b@);
    true
}

} // verus!
