//! Decimal numbers as normalised text.
//!
//! A layout measure such as a margin, and a literal with a fractional part,
//! is kept as the decimal number that was written, exactly, in one normal
//! form: no sign on zero, no leading zeros in the whole part, no trailing
//! zeros in the fraction, and no point before an empty fraction.

use vstd::prelude::*;
use crate::text::{is_ascii_digit, is_digit, push_char, push_range, to_chars};

verus! {

/// The length of the sign that `s` starts with: 0 or 1.
pub open spec fn sign_len(s: Seq<char>) -> int {
    if s.len() > 0 && (s[0] == '-' || s[0] == '+') {
        1
    } else {
        0
    }
}

/// The first index at or after `i` that holds no digit, or the length.
pub open spec fn skip_digits(s: Seq<char>, i: int) -> int
    decreases s.len() - i,
{
    if 0 <= i < s.len() && is_digit(s[i]) {
        skip_digits(s, i + 1)
    } else {
        i
    }
}

/// The first index in `i..end` that holds no `0`, or `end`.
pub open spec fn skip_zeros(s: Seq<char>, i: int, end: int) -> int
    decreases end - i,
{
    if 0 <= i < end <= s.len() && s[i] == '0' {
        skip_zeros(s, i + 1, end)
    } else {
        i
    }
}

/// The end of `s[lo..j]` once its trailing `0`s are dropped.
pub open spec fn back_zeros(s: Seq<char>, lo: int, j: int) -> int
    decreases j,
{
    if 0 <= lo < j <= s.len() && s[j - 1] == '0' {
        back_zeros(s, lo, j - 1)
    } else {
        j
    }
}

/// Whether `s` writes a decimal number: an optional sign, digits, and
/// optionally a point and more digits, with at least one digit in all.
pub open spec fn is_decimal(s: Seq<char>) -> bool {
    let a = sign_len(s);
    let b = skip_digits(s, a);
    if b == s.len() {
        b > a
    } else {
        s[b] == '.' && skip_digits(s, b + 1) == s.len() && (b > a || s.len() > b + 1)
    }
}

/// The normal form of the decimal number that `s` writes.
pub open spec fn canonical(s: Seq<char>) -> Seq<char> {
    let a = sign_len(s);
    let b = skip_digits(s, a);
    let whole = s.subrange(skip_zeros(s, a, b), b);
    let f_lo = if b < s.len() {
        b + 1
    } else {
        s.len() as int
    };
    let frac = s.subrange(f_lo, back_zeros(s, f_lo, s.len() as int));
    let negative = a == 1 && s[0] == '-' && (whole.len() > 0 || frac.len() > 0);
    (if negative {
        seq!['-']
    } else {
        Seq::empty()
    }) + (if whole.len() == 0 {
        seq!['0']
    } else {
        whole
    }) + (if frac.len() == 0 {
        Seq::empty()
    } else {
        seq!['.'] + frac
    })
}

/// The decimal number that `s` writes, in normal form, where it writes one.
pub open spec fn decimal_of_text(s: Seq<char>) -> Option<Seq<char>> {
    if is_decimal(s) {
        Some(canonical(s))
    } else {
        None
    }
}

/// A decimal number, held as its normal form.
#[derive(Debug)]
pub struct Decimal {
    pub text: String,
}

impl View for Decimal {
    type V = Seq<char>;

    open spec fn view(&self) -> Seq<char> {
        self.text@
    }
}

fn scan_digits(v: &Vec<char>, from: usize) -> (j: usize)
    requires
        from <= v@.len(),
    ensures
        from <= j <= v@.len(),
        j == skip_digits(v@, from as int),
{
    let mut j: usize = from;
    while j < v.len() && is_ascii_digit(v[j])
        invariant
            from <= j <= v@.len(),
            skip_digits(v@, from as int) == skip_digits(v@, j as int),
        decreases v@.len() - j,
    {
        j += 1;
    }
    j
}

impl Decimal {
    /// Reads a decimal number. `None` where `s` does not write one.
    pub fn parse(s: &str) -> (r: Option<Decimal>)
        ensures
            r is Some <==> is_decimal(s@),
            r matches Some(d) ==> d@ == canonical(s@),
    {
        let v = to_chars(s);
        let n = v.len();
        let a: usize = if n > 0 && (v[0] == '-' || v[0] == '+') {
            1
        } else {
            0
        };
        let b = scan_digits(&v, a);
        let f_lo: usize;
        if b == n {
            if b == a {
                return None;
            }
            f_lo = n;
        } else {
            if v[b] != '.' {
                return None;
            }
            let e = scan_digits(&v, b + 1);
            if e != n || (b == a && n == b + 1) {
                return None;
            }
            f_lo = b + 1;
        }
        let mut w: usize = a;
        while w < b && v[w] == '0'
            invariant
                a <= w <= b <= v@.len(),
                skip_zeros(v@, a as int, b as int) == skip_zeros(v@, w as int, b as int),
            decreases b - w,
        {
            w += 1;
        }
        let mut f_hi: usize = n;
        while f_hi > f_lo && v[f_hi - 1] == '0'
            invariant
                f_lo <= f_hi <= n == v@.len(),
                back_zeros(v@, f_lo as int, n as int) == back_zeros(v@, f_lo as int, f_hi as int),
            decreases f_hi - f_lo,
        {
            f_hi -= 1;
        }
        let mut text = String::new();
        if a == 1 && v[0] == '-' && (w < b || f_lo < f_hi) {
            push_char(&mut text, '-');
        }
        if w == b {
            push_char(&mut text, '0');
        } else {
            push_range(&mut text, &v, w, b);
        }
        if f_lo < f_hi {
            push_char(&mut text, '.');
            push_range(&mut text, &v, f_lo, f_hi);
        }
        assert(text@ =~= canonical(s@));
        Some(Decimal { text })
    }

    /// The normal form as text.
    pub fn to_string(&self) -> (s: String)
        ensures
            s@ == self@,
    {
        self.text.clone()
    }

}

impl Clone for Decimal {
    fn clone(&self) -> (r: Self)
        ensures
            r == *self,
    {
        Decimal { text: self.text.clone() }
    }
}

} // verus!
