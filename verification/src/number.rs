use vstd::prelude::*;
use crate::text::views;

verus! {

/// Whether `c` is an ASCII decimal digit.
pub open spec fn is_digit(c: char) -> bool {
    '0' <= c && c <= '9'
}

/// Whether `c` is a sign.
pub open spec fn is_sign(c: char) -> bool {
    c == '+' || c == '-'
}

/// Whether `c` starts an exponent.
pub open spec fn is_exponent_mark(c: char) -> bool {
    c == 'e' || c == 'E'
}

/// Whether `s` is a decimal mantissa: digits with at most one decimal point
/// and at least one digit (`1`, `1.`, `.5`, `1.5`).
pub open spec fn is_mantissa(s: Seq<char>) -> bool {
    &&& forall|i: int| 0 <= i < s.len() ==> is_digit(#[trigger] s[i]) || s[i] == '.'
    &&& forall|i: int, j: int|
        #![trigger s[i], s[j]]
        0 <= i < j < s.len() && s[i] == '.' ==> s[j] != '.'
    &&& exists|i: int| 0 <= i < s.len() && is_digit(#[trigger] s[i])
}

/// `s` without its leading sign, if it has one.
pub open spec fn unsigned(s: Seq<char>) -> Seq<char> {
    if s.len() > 0 && is_sign(s[0]) {
        s.drop_first()
    } else {
        s
    }
}

/// Whether all characters of `s` are digits, and there is one at least.
pub open spec fn is_digits(s: Seq<char>) -> bool {
    s.len() > 0 && forall|i: int| 0 <= i < s.len() ==> is_digit(#[trigger] s[i])
}

/// Whether `s` is what follows an exponent mark: an optional sign, then digits.
pub open spec fn is_exponent(s: Seq<char>) -> bool {
    is_digits(unsigned(s))
}

/// Whether `s` is a mantissa, optionally followed by an exponent.
pub open spec fn is_decimal(s: Seq<char>) -> bool {
    ||| is_mantissa(s)
    ||| exists|k: int|
        0 <= k < s.len() && is_exponent_mark(#[trigger] s[k]) && is_mantissa(s.take(k))
            && is_exponent(s.skip(k + 1))
}

/// Whether `s` spells `lower` with each letter in lower or upper case.
pub open spec fn spells(s: Seq<char>, lower: Seq<char>, upper: Seq<char>) -> bool {
    s.len() == lower.len() && forall|i: int|
        0 <= i < s.len() ==> #[trigger] s[i] == lower[i] || s[i] == upper[i]
}

/// Whether `s` names infinity or not-a-number, in any letter case.
pub open spec fn is_special(s: Seq<char>) -> bool {
    ||| spells(s, seq!['i', 'n', 'f'], seq!['I', 'N', 'F'])
    ||| spells(
        s,
        seq!['i', 'n', 'f', 'i', 'n', 'i', 't', 'y'],
        seq!['I', 'N', 'F', 'I', 'N', 'I', 'T', 'Y'],
    )
    ||| spells(s, seq!['n', 'a', 'n'], seq!['N', 'A', 'N'])
}

/// Whether `s` reads as a floating-point number, by the grammar that the
/// standard library's float parsing documents: an optional sign, then
/// `inf`, `infinity`, `nan` or a decimal with an optional exponent (letters
/// in any case, no surrounding white space).
pub open spec fn is_number_text(s: Seq<char>) -> bool {
    is_decimal(unsigned(s)) || is_special(unsigned(s))
}

/// Whether the characters `lo..hi` of `s` form a mantissa.
fn mantissa_at(s: &str, lo: usize, hi: usize) -> (r: bool)
    requires
        lo <= hi <= s@.len(),
    ensures
        r == is_mantissa(s@.subrange(lo as int, hi as int)),
{
    let ghost m = s@.subrange(lo as int, hi as int);
    let mut seen_point = false;
    let mut seen_digit = false;
    let mut i: usize = lo;
    while i < hi
        invariant
            lo <= i <= hi <= s@.len(),
            m == s@.subrange(lo as int, hi as int),
            forall|k: int| 0 <= k < i - lo ==> is_digit(#[trigger] m[k]) || m[k] == '.',
            forall|k: int, j: int|
                #![trigger m[k], m[j]]
                0 <= k < j < i - lo && m[k] == '.' ==> m[j] != '.',
            seen_point == exists|k: int| 0 <= k < i - lo && #[trigger] m[k] == '.',
            seen_digit == exists|k: int| 0 <= k < i - lo && is_digit(#[trigger] m[k]),
        decreases hi - i,
    {
        let c = s.get_char(i);
        assert(m[i - lo] == c);
        if '0' <= c && c <= '9' {
            seen_digit = true;
        } else if c == '.' {
            if seen_point {
                proof {
                    let k = choose|k: int| 0 <= k < i - lo && #[trigger] m[k] == '.';
                    assert(m[k] == '.' && m[i - lo] == '.');
                }
                return false;
            }
            seen_point = true;
        } else {
            assert(!(is_digit(m[i - lo]) || m[i - lo] == '.'));
            return false;
        }
        i = i + 1;
    }
    seen_digit
}

/// Whether the characters `lo..hi` of `s` form what follows an exponent mark.
fn exponent_at(s: &str, lo: usize, hi: usize) -> (r: bool)
    requires
        lo <= hi <= s@.len(),
    ensures
        r == is_exponent(s@.subrange(lo as int, hi as int)),
{
    let ghost e = s@.subrange(lo as int, hi as int);
    let start: usize = if lo < hi && (s.get_char(lo) == '+' || s.get_char(lo) == '-') {
        lo + 1
    } else {
        lo
    };
    let ghost digits = s@.subrange(start as int, hi as int);
    assert(digits =~= unsigned(e));
    if start == hi {
        return false;
    }
    let mut i: usize = start;
    while i < hi
        invariant
            start <= i <= hi <= s@.len(),
            digits == s@.subrange(start as int, hi as int),
            e == s@.subrange(lo as int, hi as int),
            digits == unsigned(e),
            forall|k: int| 0 <= k < i - start ==> is_digit(#[trigger] digits[k]),
        decreases hi - i,
    {
        let c = s.get_char(i);
        assert(digits[i - start] == c);
        if !('0' <= c && c <= '9') {
            assert(!is_digit(digits[i - start]));
            return false;
        }
        i = i + 1;
    }
    true
}

/// Whether the characters `lo..hi` of `s` spell `lower`/`upper`.
fn spells_at(s: &str, lo: usize, hi: usize, lower: &[char], upper: &[char]) -> (r: bool)
    requires
        lo <= hi <= s@.len(),
        lower@.len() == upper@.len(),
    ensures
        r == spells(s@.subrange(lo as int, hi as int), lower@, upper@),
{
    let ghost w = s@.subrange(lo as int, hi as int);
    if hi - lo != lower.len() {
        return false;
    }
    let mut i: usize = 0;
    while i < lower.len()
        invariant
            hi - lo == lower@.len() == upper@.len(),
            lo <= hi <= s@.len(),
            w == s@.subrange(lo as int, hi as int),
            i <= lower@.len(),
            forall|k: int| 0 <= k < i ==> #[trigger] w[k] == lower@[k] || w[k] == upper@[k],
        decreases lower.len() - i,
    {
        let c = s.get_char(lo + i);
        assert(w[i as int] == c);
        if c != lower[i] && c != upper[i] {
            return false;
        }
        i = i + 1;
    }
    true
}

/// Whether `text` reads as a floating-point number (see `is_number_text`).
pub fn reads_as_number(text: &str) -> (r: bool)
    ensures
        r == is_number_text(text@),
{
    let n = text.unicode_len();
    let start: usize = if n > 0 && (text.get_char(0) == '+' || text.get_char(0) == '-') {
        1
    } else {
        0
    };
    let ghost s = text@;
    let ghost body = s.subrange(start as int, n as int);
    assert(body =~= unsigned(s));
    let inf_lower = ['i', 'n', 'f'];
    let inf_upper = ['I', 'N', 'F'];
    let infinity_lower = ['i', 'n', 'f', 'i', 'n', 'i', 't', 'y'];
    let infinity_upper = ['I', 'N', 'F', 'I', 'N', 'I', 'T', 'Y'];
    let nan_lower = ['n', 'a', 'n'];
    let nan_upper = ['N', 'A', 'N'];
    assert(inf_lower@ =~= seq!['i', 'n', 'f']);
    assert(inf_upper@ =~= seq!['I', 'N', 'F']);
    assert(infinity_lower@ =~= seq!['i', 'n', 'f', 'i', 'n', 'i', 't', 'y']);
    assert(infinity_upper@ =~= seq!['I', 'N', 'F', 'I', 'N', 'I', 'T', 'Y']);
    assert(nan_lower@ =~= seq!['n', 'a', 'n']);
    assert(nan_upper@ =~= seq!['N', 'A', 'N']);
    if spells_at(text, start, n, &inf_lower, &inf_upper) || spells_at(
        text,
        start,
        n,
        &infinity_lower,
        &infinity_upper,
    ) || spells_at(text, start, n, &nan_lower, &nan_upper) {
        return true;
    }
    let mut k: usize = start;
    while k < n && !(text.get_char(k) == 'e' || text.get_char(k) == 'E')
        invariant
            start <= k <= n,
            n == s.len(),
            s == text@,
            forall|j: int| start <= j < k ==> !is_exponent_mark(#[trigger] s[j]),
        decreases n - k,
    {
        k = k + 1;
    }
    let ghost kk = k - start;
    if k == n {
        let r = mantissa_at(text, start, n);
        proof {
            assert forall|j: int| 0 <= j < body.len() implies !is_exponent_mark(#[trigger] body[j]) by {
                assert(body[j] == s[start + j]);
            }
        }
        return r;
    }
    assert(is_exponent_mark(body[kk]));
    assert(!is_mantissa(body)) by {
        assert(!(is_digit(body[kk]) || body[kk] == '.'));
    }
    assert(body.take(kk) =~= s.subrange(start as int, k as int));
    assert(body.skip(kk + 1) =~= s.subrange(k + 1, n as int));
    let r = mantissa_at(text, start, k) && exponent_at(text, k + 1, n);
    proof {
        if is_decimal(body) {
            let w = choose|w: int|
                0 <= w < body.len() && is_exponent_mark(#[trigger] body[w]) && is_mantissa(body.take(w))
                    && is_exponent(body.skip(w + 1));
            if w < kk {
                assert(body[w] == s[start + w]);
            } else if w > kk {
                assert(body.take(w)[kk] == body[kk]);
                assert(!(is_digit(body.take(w)[kk]) || body.take(w)[kk] == '.'));
            }
        }
        if r {
            assert(is_exponent_mark(body[kk]));
        }
    }
    r
}

/// The pieces that read as numbers, in order.
pub open spec fn numbers_only(v: Seq<Seq<char>>) -> Seq<Seq<char>>
    decreases v.len(),
{
    if v.len() == 0 {
        v
    } else if is_number_text(v.last()) {
        numbers_only(v.drop_last()).push(v.last())
    } else {
        numbers_only(v.drop_last())
    }
}

/// Keeps the pieces that read as numbers, in order.
pub fn keep_numbers(v: Vec<String>) -> (r: Vec<String>)
    ensures
        views(r@) == numbers_only(views(v@)),
{
    let mut out: Vec<String> = Vec::new();
    let mut i: usize = 0;
    assert(views(v@).take(0) =~= Seq::<Seq<char>>::empty());
    while i < v.len()
        invariant
            i <= v@.len(),
            views(out@) == numbers_only(views(v@).take(i as int)),
        decreases v.len() - i,
    {
        assert(views(v@).take(i + 1).drop_last() =~= views(v@).take(i as int));
        if reads_as_number(v[i].as_str()) {
            let ghost before = out@;
            out.push(v[i].clone());
            assert(views(out@) =~= views(before).push(v@[i as int]@));
        }
        i = i + 1;
    }
    assert(views(v@).take(v@.len() as int) =~= views(v@));
    out
}

} // verus!
