//! Text helpers shared by the lexer, the style model and the lowering pass.
//!
//! Text is modelled as `Seq<char>`, the view of `str` and `String`.

use vstd::prelude::*;
use vstd::string::StringSliceAdditionalSpecFns;

verus! {

/// Appends one character to a string.
///
/// Trusted: stands for `String::push`, which the standard library documents as
/// appending the given `char` to the end of the string.
#[verifier::external_body]
pub(crate) fn push_char(s: &mut String, c: char)
    ensures
        final(s)@ == old(s)@.push(c),
{
    s.push(c);
}

/// Whether two string slices hold the same characters.
pub fn str_eq(a: &str, b: &str) -> (r: bool)
    ensures
        r == (a@ == b@),
{
    let x = a.as_bytes();
    let y = b.as_bytes();
    if x.len() != y.len() {
        assert(a.spec_bytes().len() != b.spec_bytes().len());
        return false;
    }
    let mut i: usize = 0;
    while i < x.len()
        invariant
            i <= x.len(),
            x.len() == y.len(),
            x@ == a.spec_bytes(),
            y@ == b.spec_bytes(),
            forall|j: int| 0 <= j < i ==> x@[j] == y@[j],
        decreases x.len() - i,
    {
        if x[i] != y[i] {
            return false;
        }
        i += 1;
    }
    proof {
        // Equal encodings decode to equal character sequences.
        assert(x@ =~= y@);
        vstd::utf8::encode_utf8_decode_utf8(a@);
        vstd::utf8::encode_utf8_decode_utf8(b@);
    }
    true
}

/// The characters of a string slice, in order.
pub fn to_chars(s: &str) -> (v: Vec<char>)
    ensures
        v@ == s@,
{
    let mut v: Vec<char> = Vec::new();
    for c in it: s.chars()
        invariant
            v@ == s@.take(it.index() as int),
            it.seq() == s@,
    {
        v.push(c);
        assert(s@.take(it.index() + 1) =~= s@.take(it.index() as int).push(c));
    }
    assert(s@.take(s@.len() as int) =~= s@);
    v
}

/// The string made of `v[from..to]`.
pub fn string_from_chars(v: &Vec<char>, from: usize, to: usize) -> (s: String)
    requires
        from <= to <= v@.len(),
    ensures
        s@ == v@.subrange(from as int, to as int),
{
    let mut s = String::new();
    let mut i: usize = from;
    while i < to
        invariant
            from <= i <= to <= v@.len(),
            s@ == v@.subrange(from as int, i as int),
        decreases to - i,
    {
        push_char(&mut s, v[i]);
        assert(v@.subrange(from as int, i + 1) =~= v@.subrange(from as int, i as int).push(v@[i as int]));
        i += 1;
    }
    s
}


/// Appends `v[from..to]` to `s`.
pub fn push_range(s: &mut String, v: &Vec<char>, from: usize, to: usize)
    requires
        from <= to <= v@.len(),
    ensures
        final(s)@ == old(s)@ + v@.subrange(from as int, to as int),
{
    let mut i: usize = from;
    assert(s@ =~= old(s)@ + v@.subrange(from as int, from as int));
    while i < to
        invariant
            from <= i <= to <= v@.len(),
            s@ == old(s)@ + v@.subrange(from as int, i as int),
        decreases to - i,
    {
        push_char(s, v[i]);
        assert(v@.subrange(from as int, i + 1) =~= v@.subrange(from as int, i as int).push(v@[i as int]));
        assert(s@ =~= old(s)@ + v@.subrange(from as int, i + 1));
        i += 1;
    }
}

/// The string that holds the characters of `v`.
pub fn string_of(v: &Vec<char>) -> (s: String)
    ensures
        s@ == v@,
{
    let s = string_from_chars(v, 0, v.len());
    assert(v@.subrange(0, v@.len() as int) =~= v@);
    s
}

/// `a` followed by `b`.
pub fn joined(a: &str, b: &str) -> (s: String)
    ensures
        s@ == a@ + b@,
{
    let mut s = a.to_owned();
    s.append(b);
    s
}

// ---------------------------------------------------------------------------
// White space
// ---------------------------------------------------------------------------

/// The characters of Unicode's `White_Space` property.
pub open spec fn is_space(c: char) -> bool {
    let u = c as u32;
    (0x09 <= u <= 0x0d) || u == 0x20 || u == 0x85 || u == 0xa0 || u == 0x1680 || (0x2000 <= u
        <= 0x200a) || u == 0x2028 || u == 0x2029 || u == 0x202f || u == 0x205f || u == 0x3000
}

/// Whether `c` is white space.
pub fn is_whitespace(c: char) -> (r: bool)
    ensures
        r == is_space(c),
{
    let u: u32 = c as u32;
    (0x09 <= u && u <= 0x0d) || u == 0x20 || u == 0x85 || u == 0xa0 || u == 0x1680 || (0x2000 <= u
        && u <= 0x200a) || u == 0x2028 || u == 0x2029 || u == 0x202f || u == 0x205f || u == 0x3000
}

/// The first index at or after `i` that holds no white space, or the length.
pub open spec fn skip_spaces(s: Seq<char>, i: int) -> int
    decreases s.len() - i,
{
    if 0 <= i < s.len() && is_space(s[i]) {
        skip_spaces(s, i + 1)
    } else {
        i
    }
}

/// The first index at or after `i` that holds white space, or the length.
pub open spec fn skip_word(s: Seq<char>, i: int) -> int
    decreases s.len() - i,
{
    if 0 <= i < s.len() && !is_space(s[i]) {
        skip_word(s, i + 1)
    } else {
        i
    }
}

/// The end of `s[lo..j]` once its trailing white space is dropped.
pub open spec fn back_spaces(s: Seq<char>, lo: int, j: int) -> int
    decreases j,
{
    if lo < j <= s.len() && 0 <= lo && is_space(s[j - 1]) {
        back_spaces(s, lo, j - 1)
    } else {
        j
    }
}

/// `s` without its leading and trailing white space.
pub open spec fn trim(s: Seq<char>) -> Seq<char> {
    let lo = skip_spaces(s, 0);
    s.subrange(lo, back_spaces(s, lo, s.len() as int))
}

/// Where `skip_word` stops.
pub proof fn lemma_skip_word_bounds(s: Seq<char>, i: int)
    requires
        0 <= i <= s.len(),
    ensures
        i <= skip_word(s, i) <= s.len(),
        skip_word(s, i) < s.len() ==> is_space(s[skip_word(s, i)]),
        forall|k: int| i <= k < skip_word(s, i) ==> !is_space(s[k]),
        i < s.len() && !is_space(s[i]) ==> i < skip_word(s, i),
    decreases s.len() - i,
{
    if i < s.len() && !is_space(s[i]) {
        lemma_skip_word_bounds(s, i + 1);
    }
}

/// The bounds of `trim(v[from..to])` inside `v`.
pub fn trim_range(v: &Vec<char>, from: usize, to: usize) -> (r: (usize, usize))
    requires
        from <= to <= v@.len(),
    ensures
        from <= r.0 <= r.1 <= to,
        v@.subrange(r.0 as int, r.1 as int) == trim(v@.subrange(from as int, to as int)),
{
    let ghost s = v@.subrange(from as int, to as int);
    let mut lo: usize = from;
    while lo < to && is_whitespace(v[lo])
        invariant
            from <= lo <= to <= v@.len(),
            s == v@.subrange(from as int, to as int),
            skip_spaces(s, 0) == skip_spaces(s, lo - from),
        decreases to - lo,
    {
        lo += 1;
    }
    let mut hi: usize = to;
    while hi > lo && is_whitespace(v[hi - 1])
        invariant
            from <= lo <= hi <= to <= v@.len(),
            s == v@.subrange(from as int, to as int),
            back_spaces(s, lo - from, s.len() as int) == back_spaces(s, lo - from, hi - from),
        decreases hi - lo,
    {
        hi -= 1;
    }
    assert(s.subrange(lo - from, hi - from) =~= v@.subrange(lo as int, hi as int));
    (lo, hi)
}

/// The white-space separated words of `s` that start at or after `i`.
pub open spec fn words_from(s: Seq<char>, i: int) -> Seq<Seq<char>>
    decreases s.len() - i,
{
    let a = skip_spaces(s, i);
    let b = skip_word(s, a);
    if 0 <= i <= a < b <= s.len() {
        seq![s.subrange(a, b)] + words_from(s, b)
    } else {
        Seq::empty()
    }
}

/// The words of `s`: its maximal runs of characters that are not white space.
pub open spec fn words(s: Seq<char>) -> Seq<Seq<char>> {
    words_from(s, 0)
}

/// The white-space separated words of `s`.
pub fn split_whitespace(s: &str) -> (r: Vec<String>)
    ensures
        r@.len() == words(s@).len(),
        forall|k: int| 0 <= k < r@.len() ==> (#[trigger] r@[k])@ == words(s@)[k],
{
    let v = to_chars(s);
    let mut out: Vec<String> = Vec::new();
    let mut i: usize = 0;
    let ghost mut done: Seq<Seq<char>> = Seq::empty();
    loop
        invariant
            i <= v@.len(),
            v@ == s@,
            out@.len() == done.len(),
            forall|k: int| 0 <= k < out@.len() ==> (#[trigger] out@[k])@ == done[k],
            done + words_from(v@, i as int) == words(v@),
        ensures
            out@.len() == words(v@).len(),
            forall|k: int| 0 <= k < out@.len() ==> (#[trigger] out@[k])@ == words(v@)[k],
        decreases v@.len() - i,
    {
        let mut a: usize = i;
        while a < v.len() && is_whitespace(v[a])
            invariant
                i <= a <= v@.len(),
                skip_spaces(v@, i as int) == skip_spaces(v@, a as int),
            decreases v@.len() - a,
        {
            a += 1;
        }
        if a >= v.len() {
            proof {
                assert(words_from(v@, i as int) =~= Seq::<Seq<char>>::empty());
                assert(done + Seq::<Seq<char>>::empty() =~= done);
            }
            break;
        }
        let mut b: usize = a;
        while b < v.len() && !is_whitespace(v[b])
            invariant
                a <= b <= v@.len(),
                skip_word(v@, a as int) == skip_word(v@, b as int),
            decreases v@.len() - b,
        {
            b += 1;
        }
        proof {
            lemma_skip_word_bounds(v@, a as int);
        }
        let w = string_from_chars(&v, a, b);
        proof {
            let rest = words_from(v@, b as int);
            assert(words_from(v@, i as int) == seq![v@.subrange(a as int, b as int)] + rest);
            assert(done.push(w@) + rest =~= done + (seq![w@] + rest));
            done = done.push(w@);
        }
        out.push(w);
        i = b;
    }
    out
}

// ---------------------------------------------------------------------------
// Splitting on a character
// ---------------------------------------------------------------------------

/// The index of the first `c` at or after `i`, or the length where there is none.
pub open spec fn find_char(s: Seq<char>, c: char, i: int) -> int
    decreases s.len() - i,
{
    if 0 <= i < s.len() && s[i] != c {
        find_char(s, c, i + 1)
    } else {
        i
    }
}

/// An index with no `c` before it, back to `i`, that holds `c` or is the
/// length, is the one that `find_char` gives.
pub proof fn lemma_find_char_is(s: Seq<char>, c: char, i: int, j: int)
    requires
        0 <= i <= j <= s.len(),
        forall|k: int| i <= k < j ==> s[k] != c,
        j < s.len() ==> s[j] == c,
    ensures
        find_char(s, c, i) == j,
    decreases j - i,
{
    if i < j {
        lemma_find_char_is(s, c, i + 1, j);
    }
}

/// The index of the first `c` in `v[from..to]`, or `to`.
pub fn find_in(v: &Vec<char>, c: char, from: usize, to: usize) -> (j: usize)
    requires
        from <= to <= v@.len(),
    ensures
        from <= j <= to,
        j - from == find_char(v@.subrange(from as int, to as int), c, 0),
        j < to ==> v@[j as int] == c,
        forall|k: int| from <= k < j ==> v@[k] != c,
{
    let ghost s = v@.subrange(from as int, to as int);
    let mut j: usize = from;
    while j < to && v[j] != c
        invariant
            from <= j <= to <= v@.len(),
            s == v@.subrange(from as int, to as int),
            find_char(s, c, 0) == find_char(s, c, j - from),
            forall|k: int| from <= k < j ==> v@[k] != c,
        decreases to - j,
    {
        j += 1;
    }
    j
}

// ---------------------------------------------------------------------------
// Decimal digits and integers
// ---------------------------------------------------------------------------

/// Whether `c` is a decimal digit of ASCII.
pub open spec fn is_digit(c: char) -> bool {
    '0' <= c <= '9'
}

/// The number that a decimal digit writes.
pub open spec fn digit_value(c: char) -> int {
    c as u32 - 0x30
}

/// The character of the decimal digit `d`.
pub open spec fn digit_char(d: int) -> char {
    if d == 0 {
        '0'
    } else if d == 1 {
        '1'
    } else if d == 2 {
        '2'
    } else if d == 3 {
        '3'
    } else if d == 4 {
        '4'
    } else if d == 5 {
        '5'
    } else if d == 6 {
        '6'
    } else if d == 7 {
        '7'
    } else if d == 8 {
        '8'
    } else {
        '9'
    }
}

/// Whether `s` holds decimal digits only.
pub open spec fn all_digits(s: Seq<char>) -> bool {
    forall|i: int| 0 <= i < s.len() ==> is_digit(#[trigger] s[i])
}

/// The number that a run of decimal digits writes.
pub open spec fn digits_value(s: Seq<char>) -> nat
    decreases s.len(),
{
    if s.len() == 0 {
        0
    } else {
        (digits_value(s.drop_last()) * 10 + digit_value(s.last())) as nat
    }
}

/// The integer that `s` writes: an optional sign and at least one digit.
pub open spec fn int_of_text(s: Seq<char>) -> Option<int> {
    if s.len() > 0 && (s[0] == '-' || s[0] == '+') {
        let d = s.subrange(1, s.len() as int);
        if d.len() > 0 && all_digits(d) {
            Some(
                if s[0] == '-' {
                    -(digits_value(d) as int)
                } else {
                    digits_value(d) as int
                },
            )
        } else {
            None
        }
    } else if s.len() > 0 && all_digits(s) {
        Some(digits_value(s) as int)
    } else {
        None
    }
}

/// The integer that `s` writes, where it fits in 64 bits.
pub open spec fn i64_of_text(s: Seq<char>) -> Option<i64> {
    match int_of_text(s) {
        Some(n) => if i64::MIN <= n <= i64::MAX {
            Some(n as i64)
        } else {
            None
        },
        None => None,
    }
}

/// Whether `c` is a decimal digit of ASCII.
pub fn is_ascii_digit(c: char) -> (r: bool)
    ensures
        r == is_digit(c),
{
    '0' <= c && c <= '9'
}

proof fn lemma_digits_value_prefix(s: Seq<char>, k: int)
    requires
        0 <= k <= s.len(),
        all_digits(s),
    ensures
        digits_value(s.take(k)) <= digits_value(s),
    decreases s.len() - k,
{
    if k < s.len() {
        lemma_digits_value_prefix(s, k + 1);
        assert(s.take(k + 1).drop_last() =~= s.take(k));
        assert(is_digit(s.take(k + 1).last()));
    } else {
        assert(s.take(k) =~= s);
    }
}

/// Reads `v[from..to]` as a signed decimal integer of 64 bits.
pub fn parse_i64_range(v: &Vec<char>, from: usize, to: usize) -> (r: Option<i64>)
    requires
        from <= to <= v@.len(),
    ensures
        r == i64_of_text(v@.subrange(from as int, to as int)),
{
    let ghost s = v@.subrange(from as int, to as int);
    if from == to {
        return None;
    }
    let negative = v[from] == '-';
    let start: usize = if v[from] == '-' || v[from] == '+' {
        from + 1
    } else {
        from
    };
    if start == to {
        assert(s.subrange(1, s.len() as int).len() == 0);
        return None;
    }
    let ghost d = v@.subrange(start as int, to as int);
    assert(start > from ==> d =~= s.subrange(1, s.len() as int));
    assert(start == from ==> d =~= s);
    let limit: u64 = if negative {
        9223372036854775808u64
    } else {
        9223372036854775807u64
    };
    let mut acc: u64 = 0;
    let mut i: usize = start;
    while i < to
        invariant
            start <= i <= to <= v@.len(),
            d == v@.subrange(start as int, to as int),
            all_digits(d.take(i - start)),
            acc == digits_value(d.take(i - start)),
            acc <= limit,
            limit == if negative { 9223372036854775808u64 } else { 9223372036854775807u64 },
            from <= start < to,
            s == v@.subrange(from as int, to as int),
            negative == (s[0] == '-'),
            start > from ==> (s[0] == '-' || s[0] == '+') && d == s.subrange(1, s.len() as int),
            start == from ==> !(s[0] == '-' || s[0] == '+') && d == s,
        decreases to - i,
    {
        let c = v[i];
        if !is_ascii_digit(c) {
            assert(!is_digit(d[i - start]));
            return None;
        }
        let digit: u64 = (c as u32 - 0x30) as u64;
        proof {
            assert(d.take(i - start + 1).drop_last() =~= d.take(i - start));
            assert(d.take(i - start + 1).last() == c);
        }
        if acc > (limit - digit) / 10 {
            proof {
                if all_digits(d) {
                    lemma_digits_value_prefix(d, i - start + 1);
                }
            }
            return None;
        }
        acc = acc * 10 + digit;
        i += 1;
    }
    assert(d.take(to - start) =~= d);
    if negative {
        if acc == 9223372036854775808u64 {
            Some(i64::MIN)
        } else {
            Some(-(acc as i64))
        }
    } else {
        Some(acc as i64)
    }
}

/// Reads `s` as a signed decimal integer of 64 bits.
pub fn parse_i64(s: &str) -> (r: Option<i64>)
    ensures
        r == i64_of_text(s@),
{
    let v = to_chars(s);
    assert(v@.subrange(0, v@.len() as int) =~= v@);
    parse_i64_range(&v, 0, v.len())
}

/// The decimal digits of a natural number, without leading zeros.
pub open spec fn nat_text(n: nat) -> Seq<char>
    decreases n,
{
    if n < 10 {
        seq![digit_char(n as int)]
    } else {
        nat_text(n / 10).push(digit_char((n % 10) as int))
    }
}

/// The decimal text of an integer: a minus sign for a negative one, then its digits.
pub open spec fn int_text(n: int) -> Seq<char> {
    if n < 0 {
        seq!['-'] + nat_text((-n) as nat)
    } else {
        nat_text(n as nat)
    }
}

fn digit_to_char(d: u8) -> (c: char)
    requires
        d < 10,
    ensures
        c == digit_char(d as int),
{
    if d == 0 {
        '0'
    } else if d == 1 {
        '1'
    } else if d == 2 {
        '2'
    } else if d == 3 {
        '3'
    } else if d == 4 {
        '4'
    } else if d == 5 {
        '5'
    } else if d == 6 {
        '6'
    } else if d == 7 {
        '7'
    } else if d == 8 {
        '8'
    } else {
        '9'
    }
}

/// Appends the decimal digits of `n` to `s`.
pub fn push_nat(s: &mut String, n: u64)
    ensures
        final(s)@ == old(s)@ + nat_text(n as nat),
    decreases n,
{
    if n >= 10 {
        push_nat(s, n / 10);
    }
    push_char(s, digit_to_char((n % 10) as u8));
    proof {
        if n >= 10 {
            assert(final(s)@ =~= old(s)@ + nat_text(n as nat));
        } else {
            assert(final(s)@ =~= old(s)@ + nat_text(n as nat));
        }
    }
}

/// The decimal text of `n`.
pub fn i64_to_string(n: i64) -> (s: String)
    ensures
        s@ == int_text(n as int),
{
    let mut s = String::new();
    if n < 0 {
        push_char(&mut s, '-');
        let magnitude: u64 = if n == i64::MIN {
            9223372036854775808u64
        } else {
            (-n) as u64
        };
        push_nat(&mut s, magnitude);
        assert(s@ =~= int_text(n as int));
    } else {
        push_nat(&mut s, n as u64);
        assert(s@ =~= int_text(n as int));
    }
    s
}

/// The decimal text of `n`.
pub fn usize_to_string(n: usize) -> (s: String)
    ensures
        s@ == nat_text(n as nat),
{
    let mut s = String::new();
    push_nat(&mut s, n as u64);
    assert(s@ =~= nat_text(n as nat));
    s
}

} // verus!
