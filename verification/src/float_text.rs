//! Which texts `f32::from_str` accepts. Its documentation gives the grammar,
//! read after lowercasing:
//!
//! ```text
//! Float  ::= Sign? ( 'inf' | 'infinity' | 'nan' | Number )
//! Number ::= ( Digit+ | Digit+ '.' Digit* | Digit* '.' Digit+ ) Exp?
//! Exp    ::= 'e' Sign? Digit+
//! Sign   ::= [+-]
//! Digit  ::= [0-9]
//! ```
use vstd::prelude::*;

verus! {

/// An ASCII decimal digit.
pub open spec fn is_digit(c: char) -> bool {
    '0' <= c && c <= '9'
}

/// The number part without exponent: ASCII digits with at most one `.`,
/// and at least one digit.
pub open spec fn mantissa_ok(s: Seq<char>) -> bool {
    &&& forall|i: int| 0 <= i < s.len() ==> is_digit(#[trigger] s[i]) || s[i] == '.'
    &&& forall|i: int, j: int| 0 <= i < j < s.len() && #[trigger] s[i] == '.' ==> #[trigger] s[j] != '.'
    &&& exists|i: int| 0 <= i < s.len() && is_digit(#[trigger] s[i])
}

/// `s` without a leading `+` or `-`.
pub open spec fn unsigned(s: Seq<char>) -> Seq<char> {
    if s.len() > 0 && (s[0] == '+' || s[0] == '-') {
        s.drop_first()
    } else {
        s
    }
}

/// The exponent digits after the `e`: an optional sign and one or more digits.
pub open spec fn exponent_ok(s: Seq<char>) -> bool {
    let d = unsigned(s);
    d.len() > 0 && forall|i: int| 0 <= i < d.len() ==> is_digit(#[trigger] d[i])
}

/// The exponent mark.
pub open spec fn is_exp_mark(c: char) -> bool {
    c == 'e' || c == 'E'
}

/// `Number` of the grammar.
pub open spec fn number_ok(s: Seq<char>) -> bool {
    ||| mantissa_ok(s)
    ||| exists|k: int|
        0 <= k < s.len() && is_exp_mark(#[trigger] s[k]) && mantissa_ok(s.take(k)) && exponent_ok(
            s.skip(k + 1),
        )
}

/// `c` is the lowercase ASCII letter or digit `w`, in either case.
pub open spec fn same_ci(c: char, w: char) -> bool {
    c == w || ('a' <= w && w <= 'z' && (c as u32) == (w as u32) - 32)
}

/// `t` spells the lowercase word `w`, ignoring ASCII case.
pub open spec fn word_ci(t: Seq<char>, w: Seq<char>) -> bool {
    t.len() == w.len() && forall|i: int| 0 <= i < t.len() ==> same_ci(#[trigger] t[i], w[i])
}

/// `f32::from_str` accepts `s`.
pub open spec fn float_text(s: Seq<char>) -> bool {
    let t = unsigned(s);
    ||| word_ci(t, seq!['i', 'n', 'f'])
    ||| word_ci(t, seq!['i', 'n', 'f', 'i', 'n', 'i', 't', 'y'])
    ||| word_ci(t, seq!['n', 'a', 'n'])
    ||| number_ok(t)
}

fn sub_chars(v: &Vec<char>, lo: usize, hi: usize) -> (r: Vec<char>)
    requires
        lo <= hi <= v@.len(),
    ensures
        r@ == v@.subrange(lo as int, hi as int),
{
    let mut r: Vec<char> = Vec::new();
    let mut k: usize = lo;
    while k < hi
        invariant
            lo <= k <= hi <= v@.len(),
            r@ == v@.subrange(lo as int, k as int),
        decreases hi - k,
    {
        r.push(v[k]);
        k = k + 1;
    }
    r
}

fn mantissa_check(s: &Vec<char>) -> (r: bool)
    ensures
        r == mantissa_ok(s@),
{
    let mut dot = false;
    let mut digit = false;
    let mut k: usize = 0;
    while k < s.len()
        invariant
            0 <= k <= s@.len(),
            forall|i: int| 0 <= i < k ==> is_digit(#[trigger] s@[i]) || s@[i] == '.',
            forall|i: int, j: int| 0 <= i < j < k && #[trigger] s@[i] == '.' ==> #[trigger] s@[j] != '.',
            dot <==> exists|i: int| 0 <= i < k && #[trigger] s@[i] == '.',
            digit <==> exists|i: int| 0 <= i < k && is_digit(#[trigger] s@[i]),
        decreases s@.len() - k,
    {
        let c = s[k];
        if '0' <= c && c <= '9' {
            assert(is_digit(s@[k as int]));
            digit = true;
        } else if c == '.' {
            if dot {
                proof {
                    let i = choose|i: int| 0 <= i < k && #[trigger] s@[i] == '.';
                    assert(s@[i] == '.' && s@[k as int] == '.');
                }
                return false;
            }
            dot = true;
        } else {
            assert(!(is_digit(s@[k as int]) || s@[k as int] == '.'));
            return false;
        }
        k = k + 1;
    }
    digit
}

fn unsigned_start(s: &Vec<char>) -> (r: usize)
    ensures
        r <= s@.len(),
        s@.skip(r as int) == unsigned(s@),
{
    if s.len() > 0 && (s[0] == '+' || s[0] == '-') {
        1
    } else {
        assert(s@.skip(0) =~= s@);
        0
    }
}

fn exponent_check(s: &Vec<char>) -> (r: bool)
    ensures
        r == exponent_ok(s@),
{
    let start = unsigned_start(s);
    let ghost d = unsigned(s@);
    if start >= s.len() {
        return false;
    }
    let mut k: usize = start;
    while k < s.len()
        invariant
            start <= k <= s@.len(),
            d == s@.skip(start as int),
            d == unsigned(s@),
            forall|i: int| 0 <= i < k - start ==> is_digit(#[trigger] d[i]),
        decreases s@.len() - k,
    {
        let c = s[k];
        assert(d[k - start] == s@[k as int]);
        if !('0' <= c && c <= '9') {
            assert(!is_digit(d[k - start]));
            return false;
        }
        assert(is_digit(d[k - start]));
        k = k + 1;
    }
    true
}

fn number_check(s: &Vec<char>) -> (r: bool)
    ensures
        r == number_ok(s@),
{
    let mut k: usize = 0;
    while k < s.len()
        invariant
            0 <= k <= s@.len(),
            forall|i: int| 0 <= i < k ==> !is_exp_mark(#[trigger] s@[i]),
        decreases s@.len() - k,
    {
        if s[k] == 'e' || s[k] == 'E' {
            let head = sub_chars(s, 0, k);
            let tail = sub_chars(s, k + 1, s.len());
            assert(head@ =~= s@.take(k as int));
            assert(tail@ =~= s@.skip(k + 1));
            let m = mantissa_check(&head);
            let e = exponent_check(&tail);
            proof {
                assert(is_exp_mark(s@[k as int]));
                assert(!mantissa_ok(s@)) by {
                    assert(!(is_digit(s@[k as int]) || s@[k as int] == '.'));
                }
                assert forall|k2: int|
                    0 <= k2 < s@.len() && is_exp_mark(#[trigger] s@[k2]) && mantissa_ok(s@.take(k2))
                        && exponent_ok(s@.skip(k2 + 1)) implies k2 == k by {
                    if k2 > k {
                        assert(s@.take(k2)[k as int] == s@[k as int]);
                        assert(!(is_digit(s@.take(k2)[k as int]) || s@.take(k2)[k as int] == '.'));
                    }
                }
            }
            return m && e;
        }
        k = k + 1;
    }
    mantissa_check(s)
}

fn word_check(t: &Vec<char>, w: &Vec<char>) -> (r: bool)
    ensures
        r == word_ci(t@, w@),
{
    if t.len() != w.len() {
        return false;
    }
    let mut k: usize = 0;
    while k < t.len()
        invariant
            0 <= k <= t@.len(),
            t@.len() == w@.len(),
            forall|i: int| 0 <= i < k ==> same_ci(#[trigger] t@[i], w@[i]),
        decreases t@.len() - k,
    {
        let c = t[k];
        let x = w[k];
        let ok = c == x || ('a' <= x && x <= 'z' && (c as u32) == (x as u32) - 32);
        if !ok {
            assert(!same_ci(t@[k as int], w@[k as int]));
            return false;
        }
        k = k + 1;
    }
    true
}

/// Whether `f32::from_str` accepts `s` (see `float_text`).
pub fn is_float_text(s: &Vec<char>) -> (r: bool)
    ensures
        r == float_text(s@),
{
    let start = unsigned_start(s);
    let t = sub_chars(s, start, s.len());
    assert(t@ =~= unsigned(s@));
    let inf = vec!['i', 'n', 'f'];
    let infinity = vec!['i', 'n', 'f', 'i', 'n', 'i', 't', 'y'];
    let nan = vec!['n', 'a', 'n'];
    assert(inf@ =~= seq!['i', 'n', 'f']);
    assert(infinity@ =~= seq!['i', 'n', 'f', 'i', 'n', 'i', 't', 'y']);
    assert(nan@ =~= seq!['n', 'a', 'n']);
    word_check(&t, &inf) || word_check(&t, &infinity) || word_check(&t, &nan) || number_check(&t)
}

} // verus!
