use vstd::prelude::*;

verus! {

// ------------------------------------------------------------------------
// The floating-point literal grammar of the standard library, read
// case-insensitively:
//
//   Float  ::= Sign? ( 'inf' | 'infinity' | 'nan' | Number )
//   Number ::= ( Digit+ | Digit+ '.' Digit* | Digit* '.' Digit+ ) Exp?
//   Exp    ::= 'e' Sign? Digit+
//   Sign   ::= [+-]
//   Digit  ::= [0-9]
// ------------------------------------------------------------------------

pub open spec fn is_digit(c: char) -> bool {
    '0' <= c && c <= '9'
}

pub open spec fn is_digits(s: Seq<char>) -> bool {
    forall|i: int| 0 <= i < s.len() ==> is_digit(#[trigger] s[i])
}

pub open spec fn is_sign(c: char) -> bool {
    c == '+' || c == '-'
}

pub open spec fn is_exp_marker(c: char) -> bool {
    c == 'e' || c == 'E'
}

/// `Digit+ | Digit+ '.' Digit* | Digit* '.' Digit+`
pub open spec fn is_mantissa(m: Seq<char>) -> bool {
    ||| m.len() > 0 && is_digits(m)
    ||| exists|k: int|
        #![trigger m[k]]
        0 <= k < m.len() && m[k] == '.' && m.len() > 1 && is_digits(m.take(k)) && is_digits(
            m.skip(k + 1),
        )
}

/// What follows the `e` of an exponent: `Sign? Digit+`
pub open spec fn is_exponent(x: Seq<char>) -> bool {
    ||| x.len() > 0 && is_digits(x)
    ||| x.len() > 1 && is_sign(x[0]) && is_digits(x.skip(1))
}

/// `Number`: a mantissa with an optional exponent.
pub open spec fn is_decimal(n: Seq<char>) -> bool {
    ||| is_mantissa(n)
    ||| exists|k: int|
        #![trigger n[k]]
        0 <= k < n.len() && is_exp_marker(n[k]) && is_mantissa(n.take(k)) && is_exponent(
            n.skip(k + 1),
        )
}

/// `s` spells `lower` with any of its letters in upper case (`upper` is `lower` in upper case).
pub open spec fn eq_ignore_ascii_case(s: Seq<char>, lower: Seq<char>, upper: Seq<char>) -> bool {
    &&& s.len() == lower.len()
    &&& forall|i: int| 0 <= i < s.len() ==> (#[trigger] s[i] == lower[i] || s[i] == upper[i])
}

/// A float literal without its sign.
pub open spec fn is_unsigned_float(b: Seq<char>) -> bool {
    ||| eq_ignore_ascii_case(b, seq!['i', 'n', 'f'], seq!['I', 'N', 'F'])
    ||| eq_ignore_ascii_case(
        b,
        seq!['i', 'n', 'f', 'i', 'n', 'i', 't', 'y'],
        seq!['I', 'N', 'F', 'I', 'N', 'I', 'T', 'Y'],
    )
    ||| eq_ignore_ascii_case(b, seq!['n', 'a', 'n'], seq!['N', 'A', 'N'])
    ||| is_decimal(b)
}

/// `s` is a literal that the standard library parses as a floating-point number.
pub open spec fn is_float_literal(s: Seq<char>) -> bool {
    if s.len() > 0 && is_sign(s[0]) {
        is_unsigned_float(s.skip(1))
    } else {
        is_unsigned_float(s)
    }
}

// ------------------------------------------------------------------------
// Characters of a string
// ------------------------------------------------------------------------

/// The characters of `s`, in order.
pub fn chars_of(s: &str) -> (r: Vec<char>)
    ensures
        r@ == s@,
{
    let n = s.unicode_len();
    let mut r: Vec<char> = Vec::new();
    let mut i: usize = 0;
    while i < n
        invariant
            n == s@.len(),
            i <= n,
            r@ == s@.take(i as int),
        decreases n - i,
    {
        let c = s.get_char(i);
        r.push(c);
        i = i + 1;
        assert(r@ =~= s@.take(i as int));
    }
    assert(s@.take(n as int) =~= s@);
    r
}

/// Does `v` hold `c` anywhere?
pub fn contains_char(v: &Vec<char>, c: char) -> (r: bool)
    ensures
        r == v@.contains(c),
{
    let mut i: usize = 0;
    while i < v.len()
        invariant
            i <= v.len(),
            forall|j: int| 0 <= j < i ==> v@[j] != c,
        decreases v.len() - i,
    {
        if v[i] == c {
            assert(v@[i as int] == c);
            return true;
        }
        i = i + 1;
    }
    false
}

/// Is `v` exactly the characters of `w`?
pub fn chars_equal(v: &Vec<char>, w: &[char]) -> (r: bool)
    ensures
        r == (v@ == w@),
{
    if v.len() != w.len() {
        return false;
    }
    let mut i: usize = 0;
    while i < v.len()
        invariant
            v.len() == w@.len(),
            i <= v.len(),
            forall|j: int| 0 <= j < i ==> v@[j] == w@[j],
        decreases v.len() - i,
    {
        if v[i] != w[i] {
            return false;
        }
        i = i + 1;
    }
    assert(v@ =~= w@);
    true
}

// ------------------------------------------------------------------------
// Recognising float literals
// ------------------------------------------------------------------------

fn digits_between(v: &Vec<char>, lo: usize, hi: usize) -> (r: bool)
    requires
        lo <= hi <= v.len(),
    ensures
        r == is_digits(v@.subrange(lo as int, hi as int)),
{
    let ghost m = v@.subrange(lo as int, hi as int);
    let mut i = lo;
    while i < hi
        invariant
            lo <= i <= hi <= v.len(),
            m == v@.subrange(lo as int, hi as int),
            forall|j: int| lo <= j < i ==> is_digit(v@[j]),
        decreases hi - i,
    {
        let c = v[i];
        if !('0' <= c && c <= '9') {
            assert(m[i - lo] == c);
            return false;
        }
        i = i + 1;
    }
    assert forall|j: int| 0 <= j < m.len() implies is_digit(#[trigger] m[j]) by {
        assert(m[j] == v@[lo + j]);
    }
    true
}

/// The first position in `lo..hi` that holds `a` or `b`, or `hi` where there is none.
fn find_either(v: &Vec<char>, lo: usize, hi: usize, a: char, b: char) -> (r: usize)
    requires
        lo <= hi <= v.len(),
    ensures
        lo <= r <= hi,
        forall|j: int| lo <= j < r ==> v@[j] != a && v@[j] != b,
        r < hi ==> (v@[r as int] == a || v@[r as int] == b),
{
    let mut i = lo;
    while i < hi
        invariant
            lo <= i <= hi <= v.len(),
            forall|j: int| lo <= j < i ==> v@[j] != a && v@[j] != b,
        decreases hi - i,
    {
        if v[i] == a || v[i] == b {
            return i;
        }
        i = i + 1;
    }
    i
}

proof fn lemma_digits_have_no(s: Seq<char>, i: int)
    requires
        is_digits(s),
        0 <= i < s.len(),
    ensures
        s[i] != '.',
        !is_exp_marker(s[i]),
{
    assert(is_digit(s[i]));
}

/// Every character of a mantissa is a digit or a point.
proof fn lemma_mantissa_chars(m: Seq<char>, i: int)
    requires
        is_mantissa(m),
        0 <= i < m.len(),
    ensures
        is_digit(m[i]) || m[i] == '.',
{
    if m.len() > 0 && is_digits(m) {
        assert(is_digit(m[i]));
    } else {
        let k = choose|k: int|
            #![trigger m[k]]
            0 <= k < m.len() && m[k] == '.' && m.len() > 1 && is_digits(m.take(k)) && is_digits(
                m.skip(k + 1),
            );
        if i < k {
            assert(m.take(k)[i] == m[i]);
        } else if i > k {
            assert(m.skip(k + 1)[i - k - 1] == m[i]);
        }
    }
}

/// A mantissa starts with a digit or a point.
proof fn lemma_mantissa_first_char(m: Seq<char>)
    requires
        is_mantissa(m),
    ensures
        m.len() > 0,
        is_digit(m[0]) || m[0] == '.',
{
    if !(m.len() > 0 && is_digits(m)) {
        let k = choose|k: int|
            #![trigger m[k]]
            0 <= k < m.len() && m[k] == '.' && m.len() > 1 && is_digits(m.take(k)) && is_digits(
                m.skip(k + 1),
            );
    }
    lemma_mantissa_chars(m, 0);
}

/// A decimal number starts with a digit or a point.
proof fn lemma_decimal_first_char(n: Seq<char>)
    requires
        is_decimal(n),
    ensures
        n.len() > 0,
        is_digit(n[0]) || n[0] == '.',
{
    if is_mantissa(n) {
        lemma_mantissa_first_char(n);
    } else {
        let k = choose|k: int|
            #![trigger n[k]]
            0 <= k < n.len() && is_exp_marker(n[k]) && is_mantissa(n.take(k)) && is_exponent(
                n.skip(k + 1),
            );
        lemma_mantissa_first_char(n.take(k));
        assert(n.take(k)[0] == n[0]);
    }
}

/// A float literal starts with a sign, a digit, a point, or the first letter of
/// `inf`, `infinity` or `nan`.
pub proof fn lemma_float_literal_first_char(s: Seq<char>)
    ensures
        is_float_literal(s) ==> s.len() > 0 && (is_sign(s[0]) || is_digit(s[0]) || s[0] == '.'
            || s[0] == 'i' || s[0] == 'I' || s[0] == 'n' || s[0] == 'N'),
{
    if is_float_literal(s) && !(s.len() > 0 && is_sign(s[0])) {
        if is_decimal(s) {
            lemma_decimal_first_char(s);
        } else {
            assert(s.len() > 0 && (s[0] == seq!['i', 'n', 'f'][0] || s[0] == seq!['I', 'N', 'F'][0]
                || s[0] == seq!['n', 'a', 'n'][0] || s[0] == seq!['N', 'A', 'N'][0]));
        }
    }
}

/// The only float literals of one character are the digits.
pub proof fn lemma_float_literal_of_one_char(s: Seq<char>)
    requires
        s.len() == 1,
    ensures
        is_float_literal(s) ==> is_digit(s[0]),
{
    if is_float_literal(s) {
        if is_sign(s[0]) {
            let b = s.skip(1);
            assert(b.len() == 0);
            if is_decimal(b) {
                lemma_decimal_first_char(b);
            }
        } else if is_decimal(s) {
            if is_mantissa(s) {
                if !(s.len() > 0 && is_digits(s)) {
                    let k = choose|k: int|
                        #![trigger s[k]]
                        0 <= k < s.len() && s[k] == '.' && s.len() > 1 && is_digits(s.take(k))
                            && is_digits(s.skip(k + 1));
                }
                assert(is_digit(s[0]));
            } else {
                let k = choose|k: int|
                    #![trigger s[k]]
                    0 <= k < s.len() && is_exp_marker(s[k]) && is_mantissa(s.take(k))
                        && is_exponent(s.skip(k + 1));
                lemma_mantissa_first_char(s.take(k));
            }
        }
    }
}

/// Digits, a point and digits, with at least one digit, make a float literal.
pub proof fn lemma_point_decimal(a: Seq<char>, b: Seq<char>)
    requires
        is_digits(a),
        is_digits(b),
        a.len() + b.len() > 0,
    ensures
        is_float_literal(a + seq!['.'] + b),
{
    let m = a + seq!['.'] + b;
    let k = a.len() as int;
    assert(m[k] == '.');
    assert(m.take(k) =~= a);
    assert(m.skip(k + 1) =~= b);
    if a.len() > 0 {
        assert(m[0] == a[0]);
        assert(is_digit(a[0]));
    }
    assert(is_mantissa(m));
}

fn mantissa_between(v: &Vec<char>, lo: usize, hi: usize) -> (r: bool)
    requires
        lo <= hi <= v.len(),
    ensures
        r == is_mantissa(v@.subrange(lo as int, hi as int)),
{
    let ghost m = v@.subrange(lo as int, hi as int);
    let d = find_either(v, lo, hi, '.', '.');
    if d == hi {
        let r = lo < hi && digits_between(v, lo, hi);
        proof {
            if !r && is_mantissa(m) {
                if m.len() > 0 && is_digits(m) {
                } else {
                    let k = choose|k: int|
                        #![trigger m[k]]
                        0 <= k < m.len() && m[k] == '.' && m.len() > 1 && is_digits(m.take(k))
                            && is_digits(m.skip(k + 1));
                    assert(v@[lo + k] == m[k]);
                }
            }
        }
        r
    } else {
        let left = digits_between(v, lo, d);
        let right = digits_between(v, d + 1, hi);
        let r = left && right && hi - lo > 1;
        proof {
            let k = d - lo;
            assert(m[k] == '.');
            assert(m.take(k) =~= v@.subrange(lo as int, d as int));
            assert(m.skip(k + 1) =~= v@.subrange(d + 1, hi as int));
            if r {
                assert(is_mantissa(m));
            } else if is_mantissa(m) {
                if m.len() > 0 && is_digits(m) {
                    lemma_digits_have_no(m, k);
                } else {
                    let k2 = choose|k2: int|
                        #![trigger m[k2]]
                        0 <= k2 < m.len() && m[k2] == '.' && m.len() > 1 && is_digits(m.take(k2))
                            && is_digits(m.skip(k2 + 1));
                    if k2 < k {
                        assert(v@[lo + k2] == m[k2]);
                    } else if k2 > k {
                        assert(m.take(k2)[k] == m[k]);
                        lemma_digits_have_no(m.take(k2), k);
                    }
                }
            }
        }
        r
    }
}

fn exponent_between(v: &Vec<char>, lo: usize, hi: usize) -> (r: bool)
    requires
        lo <= hi <= v.len(),
    ensures
        r == is_exponent(v@.subrange(lo as int, hi as int)),
{
    let ghost x = v@.subrange(lo as int, hi as int);
    if lo == hi {
        return false;
    }
    let first = v[lo];
    assert(x[0] == first);
    if first == '+' || first == '-' {
        let r = hi - lo > 1 && digits_between(v, lo + 1, hi);
        proof {
            assert(x.skip(1) =~= v@.subrange(lo + 1, hi as int));
            if is_digits(x) {
                assert(is_digit(x[0]));
            }
        }
        r
    } else {
        let r = digits_between(v, lo, hi);
        r
    }
}

fn decimal_between(v: &Vec<char>, lo: usize, hi: usize) -> (r: bool)
    requires
        lo <= hi <= v.len(),
    ensures
        r == is_decimal(v@.subrange(lo as int, hi as int)),
{
    let ghost n = v@.subrange(lo as int, hi as int);
    let e = find_either(v, lo, hi, 'e', 'E');
    if e == hi {
        let r = mantissa_between(v, lo, hi);
        proof {
            if !r && is_decimal(n) {
                let k = choose|k: int|
                    #![trigger n[k]]
                    0 <= k < n.len() && is_exp_marker(n[k]) && is_mantissa(n.take(k))
                        && is_exponent(n.skip(k + 1));
                assert(v@[lo + k] == n[k]);
            }
        }
        r
    } else {
        let whole = mantissa_between(v, lo, hi);
        let left = mantissa_between(v, lo, e);
        let right = exponent_between(v, e + 1, hi);
        proof {
            let k = e - lo;
            assert(n[k] == v@[e as int]);
            assert(n.take(k) =~= v@.subrange(lo as int, e as int));
            assert(n.skip(k + 1) =~= v@.subrange(e + 1, hi as int));
            if whole {
                lemma_mantissa_chars(n, k);
            }
            if is_decimal(n) && !(left && right) {
                let k2 = choose|k2: int|
                    #![trigger n[k2]]
                    0 <= k2 < n.len() && is_exp_marker(n[k2]) && is_mantissa(n.take(k2))
                        && is_exponent(n.skip(k2 + 1));
                if k2 < k {
                    assert(v@[lo + k2] == n[k2]);
                } else if k2 > k {
                    assert(n.take(k2)[k] == n[k]);
                    lemma_mantissa_chars(n.take(k2), k);
                }
            }
        }
        left && right
    }
}

fn eq_ignore_ascii_case_between(
    v: &Vec<char>,
    lo: usize,
    hi: usize,
    lower: &[char],
    upper: &[char],
) -> (r: bool)
    requires
        lo <= hi <= v.len(),
        lower@.len() == upper@.len(),
    ensures
        r == eq_ignore_ascii_case(v@.subrange(lo as int, hi as int), lower@, upper@),
{
    let ghost s = v@.subrange(lo as int, hi as int);
    if hi - lo != lower.len() {
        return false;
    }
    let mut i: usize = 0;
    while i < lower.len()
        invariant
            hi - lo == lower@.len(),
            lower@.len() == upper@.len(),
            lo <= hi <= v.len(),
            s == v@.subrange(lo as int, hi as int),
            i <= lower.len(),
            forall|j: int| 0 <= j < i ==> (#[trigger] s[j] == lower@[j] || s[j] == upper@[j]),
        decreases lower.len() - i,
    {
        let c = v[lo + i];
        assert(s[i as int] == c);
        if !(c == lower[i] || c == upper[i]) {
            return false;
        }
        i = i + 1;
    }
    true
}

fn unsigned_float_between(v: &Vec<char>, lo: usize, hi: usize) -> (r: bool)
    requires
        lo <= hi <= v.len(),
    ensures
        r == is_unsigned_float(v@.subrange(lo as int, hi as int)),
{
    let inf = eq_ignore_ascii_case_between(v, lo, hi, &['i', 'n', 'f'], &['I', 'N', 'F']);
    let infinity = eq_ignore_ascii_case_between(
        v,
        lo,
        hi,
        &['i', 'n', 'f', 'i', 'n', 'i', 't', 'y'],
        &['I', 'N', 'F', 'I', 'N', 'I', 'T', 'Y'],
    );
    let nan = eq_ignore_ascii_case_between(v, lo, hi, &['n', 'a', 'n'], &['N', 'A', 'N']);
    let dec = decimal_between(v, lo, hi);
    inf || infinity || nan || dec
}

/// Does the standard library parse these characters as a floating-point number?
pub fn chars_are_float_literal(v: &Vec<char>) -> (r: bool)
    ensures
        r == is_float_literal(v@),
{
    let n = v.len();
    assert(v@.subrange(0, n as int) =~= v@);
    if n > 0 && (v[0] == '+' || v[0] == '-') {
        assert(v@.subrange(1, n as int) =~= v@.skip(1));
        unsigned_float_between(v, 1, n)
    } else {
        unsigned_float_between(v, 0, n)
    }
}

/// Does the standard library parse `s` as a floating-point number?
pub fn is_float_text(s: &str) -> (r: bool)
    ensures
        r == is_float_literal(s@),
{
    let v = chars_of(s);
    chars_are_float_literal(&v)
}

// ------------------------------------------------------------------------
// Character classes
// ------------------------------------------------------------------------

/// Whether `c` has the Unicode `White_Space` property: tab, line feed, vertical tab,
/// form feed, carriage return, space, next line, no-break space, Ogham space mark, the
/// spaces from en quad to hair space, line separator, paragraph separator, narrow
/// no-break space, medium mathematical space and ideographic space.
pub open spec fn has_white_space(c: char) -> bool {
    ||| ('\t' <= c && c <= '\r')
    ||| c == ' '
    ||| c == '\u{85}'
    ||| c == '\u{a0}'
    ||| c == '\u{1680}'
    ||| ('\u{2000}' <= c && c <= '\u{200a}')
    ||| c == '\u{2028}'
    ||| c == '\u{2029}'
    ||| c == '\u{202f}'
    ||| c == '\u{205f}'
    ||| c == '\u{3000}'
}

/// Whether `c` is Unicode `Alphabetic` or `Numeric`.
pub uninterp spec fn is_alphanumeric_char(c: char) -> bool;

pub open spec fn is_ascii_alphanumeric(c: char) -> bool {
    ('0' <= c && c <= '9') || ('a' <= c && c <= 'z') || ('A' <= c && c <= 'Z')
}

/// Whether `c` has the Unicode `White_Space` property (what `char::is_whitespace`
/// tells).
fn char_is_whitespace(c: char) -> (r: bool)
    ensures
        r == has_white_space(c),
{
    ('\t' <= c && c <= '\r') || c == ' ' || c == '\u{85}' || c == '\u{a0}' || c == '\u{1680}'
        || ('\u{2000}' <= c && c <= '\u{200a}') || c == '\u{2028}' || c == '\u{2029}' || c
        == '\u{202f}' || c == '\u{205f}' || c == '\u{3000}'
}

/// `char::is_alphanumeric`. Claimed of it: its result is whether `c` is Unicode
/// `Alphabetic` or `Numeric`, which on ASCII characters holds of the letters and the
/// decimal digits, and of nothing else.
#[verifier::external_body]
fn char_is_alphanumeric(c: char) -> (r: bool)
    ensures
        r == is_alphanumeric_char(c),
        c < '\u{80}' ==> (r <==> is_ascii_alphanumeric(c)),
{
    c.is_alphanumeric()
}

/// Every character of `s` is alphanumeric or an underscore (the empty text included).
pub open spec fn is_name(s: Seq<char>) -> bool {
    forall|i: int| 0 <= i < s.len() ==> (is_alphanumeric_char(#[trigger] s[i]) || s[i] == '_')
}

/// Every character of `s` is ASCII.
pub open spec fn is_ascii_text(s: Seq<char>) -> bool {
    forall|i: int| 0 <= i < s.len() ==> #[trigger] s[i] < '\u{80}'
}

/// Every character of `s` is an ASCII letter, an ASCII digit or an underscore.
pub open spec fn is_ascii_name(s: Seq<char>) -> bool {
    forall|i: int| 0 <= i < s.len() ==> (is_ascii_alphanumeric(#[trigger] s[i]) || s[i] == '_')
}

/// Is `v` a name: alphanumeric characters and underscores only? On ASCII text that is
/// whether `v` holds only ASCII letters, digits and underscores.
pub fn chars_are_name(v: &Vec<char>) -> (r: bool)
    ensures
        r == is_name(v@),
        is_ascii_text(v@) ==> (r <==> is_ascii_name(v@)),
{
    let mut i: usize = 0;
    while i < v.len()
        invariant
            i <= v.len(),
            forall|j: int| 0 <= j < i ==> (is_alphanumeric_char(#[trigger] v@[j]) || v@[j] == '_'),
            forall|j: int|
                0 <= j < i && #[trigger] v@[j] < '\u{80}' ==> (is_alphanumeric_char(v@[j])
                    <==> is_ascii_alphanumeric(v@[j])),
        decreases v.len() - i,
    {
        let c = v[i];
        if !(char_is_alphanumeric(c) || c == '_') {
            assert(v@[i as int] == c);
            return false;
        }
        i = i + 1;
    }
    true
}

// ------------------------------------------------------------------------
// Splitting at white space
// ------------------------------------------------------------------------

/// The maximal runs of characters without the `White_Space` property, in order.
pub open spec fn whitespace_words(s: Seq<char>) -> Seq<Seq<char>>
    decreases s.len(),
{
    if s.len() == 0 {
        Seq::empty()
    } else {
        let prev = whitespace_words(s.drop_last());
        let c = s.last();
        if has_white_space(c) {
            prev
        } else if s.len() > 1 && !has_white_space(s[s.len() - 2]) {
            prev.update(prev.len() - 1, prev.last().push(c))
        } else {
            prev.push(seq![c])
        }
    }
}

/// A text that ends in a character without white space has a word.
proof fn lemma_words_nonempty(s: Seq<char>)
    requires
        s.len() > 0,
        !has_white_space(s.last()),
    ensures
        whitespace_words(s).len() > 0,
    decreases s.len(),
{
    if s.len() > 1 && !has_white_space(s[s.len() - 2]) {
        let t = s.drop_last();
        assert(t.last() == s[s.len() - 2]);
        lemma_words_nonempty(t);
    }
}

/// The words of two texts joined by a white-space character are the words of the first
/// followed by the words of the second.
pub proof fn lemma_words_of_joined(a: Seq<char>, b: Seq<char>, sep: char)
    requires
        has_white_space(sep),
    ensures
        whitespace_words(a + seq![sep] + b) == whitespace_words(a) + whitespace_words(b),
    decreases b.len(),
{
    let s = a + seq![sep] + b;
    if b.len() == 0 {
        assert(s.drop_last() =~= a);
        assert(whitespace_words(a) + whitespace_words(b) =~= whitespace_words(a));
    } else {
        let b2 = b.drop_last();
        lemma_words_of_joined(a, b2, sep);
        assert(s.drop_last() =~= a + seq![sep] + b2);
        let c = b.last();
        assert(s.last() == c);
        let wa = whitespace_words(a);
        let wb2 = whitespace_words(b2);
        if has_white_space(c) {
        } else if b.len() > 1 {
            assert(s[s.len() - 2] == b[b.len() - 2]);
            if !has_white_space(b[b.len() - 2]) {
                assert(b2.last() == b[b.len() - 2]);
                lemma_words_nonempty(b2);
                assert((wa + wb2).update((wa + wb2).len() - 1, (wa + wb2).last().push(c)) =~= wa
                    + wb2.update(wb2.len() - 1, wb2.last().push(c)));
            } else {
                assert((wa + wb2).push(seq![c]) =~= wa + wb2.push(seq![c]));
            }
        } else {
            assert(s[s.len() - 2] == sep);
            assert(b2.len() == 0);
            assert((wa + wb2).push(seq![c]) =~= wa + wb2.push(seq![c]));
        }
    }
}

pub open spec fn text_views(v: Seq<&str>) -> Seq<Seq<char>> {
    v.map_values(|w: &str| w@)
}

/// `str::split_whitespace`, collected: the pieces of `s` between runs of white space.
pub fn split_whitespace<'a>(s: &'a str) -> (r: Vec<&'a str>)
    ensures
        text_views(r@) == whitespace_words(s@),
{
    let v = chars_of(s);
    let n = v.len();
    let mut r: Vec<&'a str> = Vec::new();
    let mut start: usize = 0;
    let mut in_word = false;
    let mut i: usize = 0;
    while i < n
        invariant
            v@ == s@,
            n == v.len(),
            start <= i <= n,
            in_word ==> start < i && !has_white_space(v@[i - 1]) && whitespace_words(
                s@.take(i as int),
            ) == text_views(r@).push(s@.subrange(start as int, i as int)),
            !in_word ==> (i == 0 || has_white_space(v@[i - 1])) && whitespace_words(
                s@.take(i as int),
            ) == text_views(r@),
        decreases n - i,
    {
        let c = v[i];
        let ws = char_is_whitespace(c);
        let ghost t = s@.take(i + 1);
        assert(t.drop_last() =~= s@.take(i as int));
        assert(t.last() == c);
        if i > 0 {
            assert(t[i - 1] == v@[i - 1]);
        }
        if ws {
            if in_word {
                let w = s.substring_char(start, i);
                let ghost before = text_views(r@);
                r.push(w);
                assert(text_views(r@) =~= before.push(s@.subrange(start as int, i as int)));
                in_word = false;
            }
        } else {
            if in_word {
                assert(s@.subrange(start as int, i + 1) =~= s@.subrange(start as int, i as int).push(
                    c,
                ));
            } else {
                start = i;
                assert(s@.subrange(start as int, i + 1) =~= seq![c]);
                in_word = true;
            }
        }
        i = i + 1;
    }
    assert(s@.take(n as int) =~= s@);
    if in_word {
        let w = s.substring_char(start, n);
        let ghost before = text_views(r@);
        r.push(w);
        assert(text_views(r@) =~= before.push(s@.subrange(start as int, n as int)));
    }
    r
}

// ------------------------------------------------------------------------
// Laws
// ------------------------------------------------------------------------

/// Every character of `s` is one of the ASCII digits `0` to `9`.
pub open spec fn all_ascii_digits(s: Seq<char>) -> bool {
    forall|i: int| 0 <= i < s.len() ==> '0' <= #[trigger] s[i] && s[i] <= '9'
}

/// Digits, an exponent marker (`e` or `E`), an optional sign and digits make a float
/// literal, however many digits each run has; so do digits, a point, digits and such
/// an exponent.
pub proof fn lemma_exponent_literals(a: Seq<char>, b: Seq<char>, d: Seq<char>, marker: char, sign: char)
    requires
        all_ascii_digits(a),
        all_ascii_digits(b),
        all_ascii_digits(d),
        a.len() > 0,
        d.len() > 0,
        marker == 'e' || marker == 'E',
        sign == '+' || sign == '-',
    ensures
        is_float_literal(a + seq![marker] + d),
        is_float_literal(a + seq![marker, sign] + d),
        is_float_literal(a + seq!['.'] + b + seq![marker] + d),
        is_float_literal(a + seq!['.'] + b + seq![marker, sign] + d),
{
    assert(is_digits(a) && is_digits(b) && is_digits(d));
    let m2 = a + seq!['.'] + b;
    let k2 = a.len() as int;
    assert(m2[k2] == '.');
    assert(m2.take(k2) =~= a);
    assert(m2.skip(k2 + 1) =~= b);
    assert(is_mantissa(m2));
    assert(is_mantissa(a));
    lemma_exponent_after(a, d, marker);
    lemma_exponent_after(m2, d, marker);
    lemma_signed_exponent_after(a, d, marker, sign);
    lemma_signed_exponent_after(m2, d, marker, sign);
    assert(a + seq!['.'] + b + seq![marker] + d =~= m2 + seq![marker] + d);
    assert(a + seq!['.'] + b + seq![marker, sign] + d =~= m2 + seq![marker, sign] + d);
}

proof fn lemma_exponent_after(m: Seq<char>, d: Seq<char>, marker: char)
    requires
        is_mantissa(m),
        is_digits(d),
        d.len() > 0,
        marker == 'e' || marker == 'E',
    ensures
        is_float_literal(m + seq![marker] + d),
{
    let n = m + seq![marker] + d;
    let k = m.len() as int;
    lemma_mantissa_first_char(m);
    assert(n[0] == m[0]);
    assert(n[k] == marker);
    assert(n.take(k) =~= m);
    assert(n.skip(k + 1) =~= d);
    assert(is_decimal(n));
}

proof fn lemma_signed_exponent_after(m: Seq<char>, d: Seq<char>, marker: char, sign: char)
    requires
        is_mantissa(m),
        is_digits(d),
        d.len() > 0,
        marker == 'e' || marker == 'E',
        sign == '+' || sign == '-',
    ensures
        is_float_literal(m + seq![marker, sign] + d),
{
    let n = m + seq![marker, sign] + d;
    let k = m.len() as int;
    lemma_mantissa_first_char(m);
    assert(n[0] == m[0]);
    assert(n[k] == marker);
    assert(n.take(k) =~= m);
    let x = n.skip(k + 1);
    assert(x =~= seq![sign] + d);
    assert(x[0] == sign);
    assert(x.skip(1) =~= d);
    assert(is_exponent(x));
    assert(is_decimal(n));
}

/// Among ASCII characters, exactly tab, line feed, vertical tab, form feed, carriage
/// return and space separate words.
pub proof fn lemma_ascii_white_space(c: char)
    requires
        c < '\u{80}',
    ensures
        has_white_space(c) <==> (c == '\t' || c == '\n' || c == '\u{b}' || c == '\u{c}' || c
            == '\r' || c == ' '),
{
}

/// A text none of whose characters separates words is one word (where it is not
/// empty), and in general every word is a non-empty run of characters none of which
/// separates words.
pub proof fn lemma_words_without_white_space(s: Seq<char>)
    ensures
        s.len() > 0 && (forall|i: int| 0 <= i < s.len() ==> !has_white_space(#[trigger] s[i]))
            ==> whitespace_words(s) == seq![s],
        forall|j: int|
            0 <= j < whitespace_words(s).len() ==> (#[trigger] whitespace_words(s)[j]).len() > 0
                && forall|i: int|
                0 <= i < whitespace_words(s)[j].len() ==> !has_white_space(
                    whitespace_words(s)[j][i],
                ),
    decreases s.len(),
{
    if s.len() > 0 {
        let t = s.drop_last();
        lemma_words_without_white_space(t);
        let wt = whitespace_words(t);
        let c = s.last();
        if s.len() > 0 && (forall|i: int| 0 <= i < s.len() ==> !has_white_space(#[trigger] s[i])) {
            assert(!has_white_space(s[s.len() - 1]));
            if t.len() > 0 {
                assert forall|i: int| 0 <= i < t.len() implies !has_white_space(#[trigger] t[i]) by {
                    assert(t[i] == s[i]);
                }
                assert(!has_white_space(s[s.len() - 2]));
                assert(wt == seq![t]);
                assert(whitespace_words(s) =~= seq![t.push(c)]);
                assert(t.push(c) =~= s);
            } else {
                assert(whitespace_words(s) =~= seq![seq![c]]);
                assert(seq![c] =~= s);
            }
        }
        let w = whitespace_words(s);
        if has_white_space(c) {
        } else if s.len() > 1 && !has_white_space(s[s.len() - 2]) {
            assert(t.last() == s[s.len() - 2]);
            lemma_words_nonempty(t);
            assert forall|j: int| 0 <= j < w.len() implies (#[trigger] w[j]).len() > 0
                && forall|i: int| 0 <= i < w[j].len() ==> !has_white_space(w[j][i]) by {
                if j < wt.len() - 1 {
                    assert(w[j] == wt[j]);
                } else {
                    assert(w[j] == wt[j].push(c));
                    assert forall|i: int| 0 <= i < w[j].len() implies !has_white_space(w[j][i]) by {
                        if i < wt[j].len() {
                            assert(w[j][i] == wt[j][i]);
                        }
                    }
                }
            }
        } else {
            assert forall|j: int| 0 <= j < w.len() implies (#[trigger] w[j]).len() > 0
                && forall|i: int| 0 <= i < w[j].len() ==> !has_white_space(w[j][i]) by {
                if j < wt.len() {
                    assert(w[j] == wt[j]);
                } else {
                    assert(w[j] == seq![c]);
                }
            }
        }
    }
}

} // verus!
