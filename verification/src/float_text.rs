//! The grammar of floating-point literals that the standard library's `f32`
//! parse accepts, as its documentation gives it (letters compared without case):
//!
//! ```text
//! Float  ::= Sign? ( 'inf' | 'infinity' | 'nan' | Number )
//! Number ::= ( Digit+ | Digit+ '.' Digit* | Digit* '.' Digit+ ) Exp?
//! Exp    ::= 'e' Sign? Digit+
//! Sign   ::= [+-]
//! Digit  ::= [0-9]
//! ```
//!
//! Only the syntax is decided here; reading the value is left to the caller.
use vstd::prelude::*;
use vstd::slice::slice_subrange;
use vstd::string::StrSliceExecFns;

verus! {

/// An ASCII decimal digit.
pub open spec fn is_ascii_digit(c: char) -> bool {
    '0' <= c && c <= '9'
}

/// The lower-case form of an ASCII letter; other characters are unchanged.
pub open spec fn ascii_lower(c: char) -> char {
    if 'A' <= c && c <= 'Z' {
        ((c as int) + 32) as char
    } else {
        c
    }
}

/// `s` spells the lower-case `word`, ASCII letters compared without case.
pub open spec fn matches_ignoring_case(s: Seq<char>, word: Seq<char>) -> bool {
    s.len() == word.len() && forall|i: int| 0 <= i < s.len() ==> ascii_lower(#[trigger] s[i]) == word[i]
}

/// Every character is a digit (the empty sequence included).
pub open spec fn only_digits(s: Seq<char>) -> bool {
    forall|i: int| 0 <= i < s.len() ==> is_ascii_digit(#[trigger] s[i])
}

/// `Digit+`.
pub open spec fn is_digit_run(s: Seq<char>) -> bool {
    s.len() > 0 && only_digits(s)
}

/// `Sign? Digit+`.
pub open spec fn is_signed_digit_run(s: Seq<char>) -> bool {
    if s.len() > 0 && (s[0] == '+' || s[0] == '-') {
        is_digit_run(s.drop_first())
    } else {
        is_digit_run(s)
    }
}

/// `Exp`.
pub open spec fn is_exponent(s: Seq<char>) -> bool {
    s.len() > 0 && ascii_lower(s[0]) == 'e' && is_signed_digit_run(s.drop_first())
}

/// `Digit+ | Digit+ '.' Digit* | Digit* '.' Digit+`.
pub open spec fn is_mantissa(s: Seq<char>) -> bool {
    ||| is_digit_run(s)
    ||| exists|p: int|
        0 <= p < s.len() && #[trigger] s[p] == '.' && only_digits(s.take(p)) && only_digits(
            s.skip(p + 1),
        ) && s.len() > 1
}

/// `Number`.
pub open spec fn is_number(s: Seq<char>) -> bool {
    exists|m: int|
        0 <= m <= s.len() && #[trigger] is_mantissa(s.take(m)) && (m == s.len() || is_exponent(
            s.skip(m),
        ))
}

/// `Float`: the texts that parse as an `f32`.
pub open spec fn is_float_text(s: Seq<char>) -> bool {
    let body = if s.len() > 0 && (s[0] == '+' || s[0] == '-') {
        s.drop_first()
    } else {
        s
    };
    ||| matches_ignoring_case(body, "inf"@)
    ||| matches_ignoring_case(body, "infinity"@)
    ||| matches_ignoring_case(body, "nan"@)
    ||| is_number(body)
}

/// One of the ten decimal digit characters.
pub open spec fn is_one_of_ten_digits(c: char) -> bool {
    c == '0' || c == '1' || c == '2' || c == '3' || c == '4' || c == '5' || c == '6' || c
        == '7' || c == '8' || c == '9'
}

/// The digits of the grammar are exactly the ten characters `0` to `9`.
pub proof fn lemma_digits_are_the_ten(c: char)
    ensures
        is_ascii_digit(c) <==> is_one_of_ten_digits(c),
{
}

/// Every text made of decimal digits, with at most one `.` among them and at
/// least one digit, optionally signed, parses as an `f32`: such as `7`,
/// `0.9`, `-12.` and `.5`.
pub proof fn lemma_decimal_texts_are_floats(sign: Seq<char>, whole: Seq<char>, fraction: Seq<char>, dot: bool)
    requires
        sign == Seq::<char>::empty() || sign == seq!['+'] || sign == seq!['-'],
        forall|i: int| 0 <= i < whole.len() ==> is_one_of_ten_digits(#[trigger] whole[i]),
        forall|i: int| 0 <= i < fraction.len() ==> is_one_of_ten_digits(#[trigger] fraction[i]),
        whole.len() + fraction.len() > 0,
        !dot ==> fraction.len() == 0,
    ensures
        is_float_text(sign + whole + (if dot { seq!['.'] } else { Seq::empty() }) + fraction),
{
    let body = whole + (if dot {
        seq!['.']
    } else {
        Seq::<char>::empty()
    }) + fraction;
    let s = sign + whole + (if dot {
        seq!['.']
    } else {
        Seq::<char>::empty()
    }) + fraction;
    if sign.len() == 0 {
        assert(s =~= body);
        if whole.len() > 0 {
            assert(body[0] == whole[0]);
        } else if dot {
            assert(body[0] == '.');
        } else {
            assert(body[0] == fraction[0]);
        }
    } else {
        assert(s[0] == sign[0]);
        assert(s.drop_first() =~= body);
    }
    let n = body.len() as int;
    assert(body.take(n) =~= body);
    if dot {
        let p = whole.len() as int;
        assert(body[p] == '.');
        assert(body.take(p) =~= whole);
        assert(body.skip(p + 1) =~= fraction);
        assert(only_digits(body.take(p)));
        assert(only_digits(body.skip(p + 1)));
        assert(is_mantissa(body.take(n)));
    } else {
        assert(body =~= whole);
        assert(is_digit_run(body));
        assert(is_mantissa(body.take(n)));
    }
    assert(is_number(body));
}

/// The characters of a string.
fn chars_of(text: &str) -> (r: Vec<char>)
    ensures
        r@ == text@,
{
    let n = text.unicode_len();
    let mut out: Vec<char> = Vec::new();
    let mut i: usize = 0;
    while i < n
        invariant
            n == text@.len(),
            i <= n,
            out@ == text@.take(i as int),
        decreases n - i,
    {
        out.push(text.get_char(i));
        i = i + 1;
        assert(out@ =~= text@.take(i as int));
    }
    assert(out@ =~= text@);
    out
}

/// Tells whether `s` spells `lower` (whose upper-case form is `upper`),
/// ASCII letters compared without case.
fn spells_ignoring_case(s: &[char], lower: &str, upper: &str) -> (r: bool)
    requires
        lower@.len() == upper@.len(),
        forall|i: int|
            0 <= i < lower@.len() ==> 'a' <= #[trigger] lower@[i] <= 'z' && upper@[i] == ((
            lower@[i] as int) - 32) as char,
    ensures
        r == matches_ignoring_case(s@, lower@),
{
    let n = s.len();
    let w = lower.unicode_len();
    if n != w {
        return false;
    }
    let mut i: usize = 0;
    while i < w
        invariant
            w == lower@.len(),
            w == upper@.len(),
            n == w,
            n == s@.len(),
            i <= w,
            forall|k: int|
                0 <= k < lower@.len() ==> 'a' <= #[trigger] lower@[k] <= 'z' && upper@[k] == ((
                lower@[k] as int) - 32) as char,
            forall|k: int| 0 <= k < i ==> ascii_lower(#[trigger] s@[k]) == lower@[k],
        decreases w - i,
    {
        let c = s[i];
        if c != lower.get_char(i) && c != upper.get_char(i) {
            assert(ascii_lower(c) != lower@[i as int]);
            return false;
        }
        i = i + 1;
    }
    true
}

/// An ASCII decimal digit.
fn is_digit(c: char) -> (r: bool)
    ensures
        r == is_ascii_digit(c),
{
    '0' <= c && c <= '9'
}

/// `Sign? Digit+`.
fn signed_digit_run(s: &[char]) -> (r: bool)
    ensures
        r == is_signed_digit_run(s@),
{
    let n = s.len();
    let start: usize = if n > 0 && (s[0] == '+' || s[0] == '-') {
        1
    } else {
        0
    };
    if start >= n {
        return false;
    }
    let mut i: usize = start;
    while i < n
        invariant
            n == s@.len(),
            start <= i <= n,
            start < n,
            start == (if n > 0 && (s@[0] == '+' || s@[0] == '-') {
                1usize
            } else {
                0usize
            }),
            forall|k: int| start <= k < i ==> is_ascii_digit(#[trigger] s@[k]),
        decreases n - i,
    {
        if !is_digit(s[i]) {
            let ghost body = if start == 1 {
                s@.drop_first()
            } else {
                s@
            };
            assert(body =~= s@.skip(start as int));
            assert(body[i - start] == s@[i as int]);
            assert(!is_ascii_digit(body[i - start]));
            return false;
        }
        i = i + 1;
    }
    assert(s@.drop_first() =~= s@.skip(1));
    assert(s@ =~= s@.skip(0));
    assert forall|k: int| 0 <= k < s@.skip(start as int).len() implies is_ascii_digit(
        #[trigger] s@.skip(start as int)[k],
    ) by {
        assert(s@.skip(start as int)[k] == s@[start + k]);
    }
    true
}

/// The characters of a mantissa are digits and dots, with at most one dot
/// and at least one digit.
proof fn lemma_mantissa_shape(u: Seq<char>)
    requires
        is_mantissa(u),
    ensures
        forall|k: int| 0 <= k < u.len() ==> is_ascii_digit(#[trigger] u[k]) || u[k] == '.',
        forall|k1: int, k2: int|
            0 <= k1 < k2 < u.len() && #[trigger] u[k1] == '.' ==> #[trigger] u[k2] != '.',
        exists|k: int| 0 <= k < u.len() && is_ascii_digit(#[trigger] u[k]),
{
    if is_digit_run(u) {
        assert(is_ascii_digit(u[0]));
    } else {
        let p = choose|p: int|
            0 <= p < u.len() && #[trigger] u[p] == '.' && only_digits(u.take(p)) && only_digits(
                u.skip(p + 1),
            ) && u.len() > 1;
        assert forall|k: int| 0 <= k < u.len() && k != p implies is_ascii_digit(#[trigger] u[k]) by {
            if k < p {
                assert(u.take(p)[k] == u[k]);
            } else {
                assert(u.skip(p + 1)[k - p - 1] == u[k]);
            }
        }
        let w = if p == 0 {
            1int
        } else {
            0int
        };
        assert(is_ascii_digit(u[w]));
    }
}

/// Digits and dots with at most one dot and at least one digit form a mantissa.
proof fn lemma_mantissa_from_shape(u: Seq<char>, digit_at: int)
    requires
        forall|k: int| 0 <= k < u.len() ==> is_ascii_digit(#[trigger] u[k]) || u[k] == '.',
        forall|k1: int, k2: int|
            0 <= k1 < k2 < u.len() && #[trigger] u[k1] == '.' ==> #[trigger] u[k2] != '.',
        0 <= digit_at < u.len(),
        is_ascii_digit(u[digit_at]),
    ensures
        is_mantissa(u),
{
    if exists|p: int| 0 <= p < u.len() && #[trigger] u[p] == '.' {
        let p = choose|p: int| 0 <= p < u.len() && #[trigger] u[p] == '.';
        assert forall|k: int| 0 <= k < u.take(p).len() implies is_ascii_digit(
            #[trigger] u.take(p)[k],
        ) by {
            assert(u.take(p)[k] == u[k]);
        }
        assert forall|k: int| 0 <= k < u.skip(p + 1).len() implies is_ascii_digit(
            #[trigger] u.skip(p + 1)[k],
        ) by {
            assert(u.skip(p + 1)[k] == u[p + 1 + k]);
        }
        assert(digit_at != p);
        assert(u.len() > 1);
    } else {
        assert(is_digit_run(u));
    }
}

/// `Number`.
fn number(t: &[char]) -> (r: bool)
    ensures
        r == is_number(t@),
{
    let n = t.len();
    let mut i: usize = 0;
    let mut bad = false;
    let mut dots: usize = 0;
    let mut dot_at: usize = 0;
    let mut digit_seen = false;
    let mut digit_at: usize = 0;
    while i < n && t[i] != 'e' && t[i] != 'E'
        invariant
            n == t@.len(),
            i <= n,
            dots <= 2,
            forall|k: int| 0 <= k < i ==> #[trigger] t@[k] != 'e' && t@[k] != 'E',
            !bad ==> forall|k: int|
                0 <= k < i ==> is_ascii_digit(#[trigger] t@[k]) || t@[k] == '.',
            bad ==> exists|k: int|
                0 <= k < i && !(is_ascii_digit(#[trigger] t@[k]) || t@[k] == '.'),
            digit_seen ==> digit_at < i && is_ascii_digit(t@[digit_at as int]),
            !digit_seen ==> forall|k: int| 0 <= k < i ==> !is_ascii_digit(#[trigger] t@[k]),
            dots == 0 ==> forall|k: int| 0 <= k < i ==> #[trigger] t@[k] != '.',
            dots == 1 ==> dot_at < i && t@[dot_at as int] == '.' && forall|k: int|
                0 <= k < i && k != dot_at ==> #[trigger] t@[k] != '.',
            dots == 2 ==> exists|k1: int, k2: int|
                0 <= k1 < k2 < i && #[trigger] t@[k1] == '.' && #[trigger] t@[k2] == '.',
        decreases n - i,
    {
        let c = t[i];
        if is_digit(c) {
            digit_seen = true;
            digit_at = i;
        } else if c == '.' {
            if dots == 0 {
                dot_at = i;
                dots = 1;
            } else if dots == 1 {
                assert(t@[dot_at as int] == '.' && t@[i as int] == '.');
                dots = 2;
            }
        } else {
            bad = true;
        }
        i = i + 1;
    }
    let m = i;
    let mantissa_ok = !bad && dots <= 1 && digit_seen;
    let ghost u = t@.take(m as int);
    proof {
        if mantissa_ok {
            assert forall|k1: int, k2: int|
                0 <= k1 < k2 < u.len() && #[trigger] u[k1] == '.' implies #[trigger] u[k2]
                != '.' by {
                assert(u[k1] == t@[k1] && u[k2] == t@[k2]);
            }
            assert forall|k: int| 0 <= k < u.len() implies is_ascii_digit(#[trigger] u[k])
                || u[k] == '.' by {
                assert(u[k] == t@[k]);
            }
            assert(u[digit_at as int] == t@[digit_at as int]);
            lemma_mantissa_from_shape(u, digit_at as int);
        } else if is_mantissa(u) {
            lemma_mantissa_shape(u);
            if bad {
                let k = choose|k: int|
                    0 <= k < m && !(is_ascii_digit(#[trigger] t@[k]) || t@[k] == '.');
                assert(u[k] == t@[k]);
            } else if dots == 2 {
                let (k1, k2) = choose|k1: int, k2: int|
                    0 <= k1 < k2 < m && #[trigger] t@[k1] == '.' && #[trigger] t@[k2] == '.';
                assert(u[k1] == t@[k1] && u[k2] == t@[k2]);
            } else {
                let k = choose|k: int| 0 <= k < u.len() && is_ascii_digit(#[trigger] u[k]);
                assert(u[k] == t@[k]);
            }
        }
    }
    let exponent_ok = if m == n {
        true
    } else {
        let rest = slice_subrange(t, m + 1, n);
        proof {
            assert(rest@ =~= t@.skip(m as int).drop_first());
        }
        signed_digit_run(rest)
    };
    proof {
        if m < n {
            assert(t@.skip(m as int)[0] == t@[m as int]);
            assert(ascii_lower(t@[m as int]) == 'e');
        }
    }
    let r = mantissa_ok && exponent_ok;
    proof {
        if r {
            assert(is_mantissa(t@.take(m as int)));
        } else if is_number(t@) {
            let m2 = choose|m2: int|
                0 <= m2 <= t@.len() && #[trigger] is_mantissa(t@.take(m2)) && (m2 == t@.len()
                    || is_exponent(t@.skip(m2)));
            lemma_mantissa_shape(t@.take(m2));
            if m2 < m {
                assert(t@.skip(m2)[0] == t@[m2]);
                assert(ascii_lower(t@[m2]) == 'e');
            } else if m2 > m {
                assert(t@.take(m2)[m as int] == t@[m as int]);
            }
            assert(m2 == m);
        }
    }
    r
}

/// Tells whether a text parses as an `f32`, by the documented grammar.
pub fn is_float_literal(text: &str) -> (r: bool)
    ensures
        r == is_float_text(text@),
{
    let chars = chars_of(text);
    let all: &[char] = chars.as_slice();
    let n = all.len();
    let start: usize = if n > 0 && (all[0] == '+' || all[0] == '-') {
        1
    } else {
        0
    };
    let body = slice_subrange(all, start, n);
    proof {
        assert(all@.drop_first() =~= all@.subrange(1, n as int));
        assert(all@ =~= all@.subrange(0, n as int));
        reveal_strlit("inf");
        reveal_strlit("INF");
        reveal_strlit("infinity");
        reveal_strlit("INFINITY");
        reveal_strlit("nan");
        reveal_strlit("NAN");
    }
    spells_ignoring_case(body, "inf", "INF") || spells_ignoring_case(body, "infinity", "INFINITY")
        || spells_ignoring_case(body, "nan", "NAN") || number(body)
}

} // verus!
