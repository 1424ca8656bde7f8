//! Character-level helpers over strings.

use vstd::prelude::*;

verus! {

broadcast use vstd::string::group_string_axioms;

/// The characters of `s`, in order.
pub fn chars_of(s: &str) -> (v: Vec<char>)
    ensures
        v@ == s@,
{
    let mut v: Vec<char> = Vec::new();
    for c in it: s.chars()
        invariant
            v@ == it.seq().take(it.index() as int),
            it.seq() == s@,
    {
        v.push(c);
    }
    v
}

} // verus!

verus! {

pub open spec fn is_digit(c: char) -> bool {
    '0' <= c && c <= '9'
}

pub open spec fn is_sign(c: char) -> bool {
    c == '+' || c == '-'
}

pub open spec fn is_exponent_marker(c: char) -> bool {
    c == 'e' || c == 'E'
}

pub open spec fn all_digits(s: Seq<char>) -> bool {
    forall|i: int| 0 <= i < s.len() ==> is_digit(#[trigger] s[i])
}

/// `c` is the lower-case ASCII letter `lower` or its upper-case form.
pub open spec fn same_letter_ignoring_case(c: char, lower: char) -> bool {
    c == lower || (c as u32) + 32 == lower as u32 && 'a' <= lower && lower <= 'z'
}

/// `s` spells `word` (written in lower-case ASCII) with any mix of ASCII cases.
pub open spec fn spells_ignoring_case(s: Seq<char>, word: Seq<char>) -> bool {
    &&& s.len() == word.len()
    &&& forall|i: int| 0 <= i < s.len() ==> same_letter_ignoring_case(#[trigger] s[i], word[i])
}

/// The part of a decimal literal before its exponent: digits with at most one
/// decimal point and at least one digit (`Digit+ | Digit+ '.' Digit* | Digit* '.' Digit+`).
pub open spec fn is_mantissa(m: Seq<char>) -> bool {
    &&& forall|i: int| 0 <= i < m.len() ==> is_digit(#[trigger] m[i]) || m[i] == '.'
    &&& forall|i: int, j: int|
        0 <= i < m.len() && 0 <= j < m.len() && #[trigger] m[i] == '.' && #[trigger] m[j] == '.'
            ==> i == j
    &&& m.len() > 0
    &&& !(m.len() == 1 && m[0] == '.')
}

/// What follows the exponent marker: an optional sign, then one or more digits.
pub open spec fn is_exponent_part(x: Seq<char>) -> bool {
    if x.len() > 0 && is_sign(x[0]) {
        x.len() > 1 && all_digits(x.drop_first())
    } else {
        x.len() > 0 && all_digits(x)
    }
}

/// `Number ::= ( Digit+ | Digit+ '.' Digit* | Digit* '.' Digit+ ) Exp?`
pub open spec fn is_decimal_number(s: Seq<char>) -> bool {
    ||| is_mantissa(s)
    ||| exists|p: int|
        0 <= p < s.len() && is_exponent_marker(#[trigger] s[p]) && is_mantissa(s.take(p))
            && is_exponent_part(s.skip(p + 1))
}

pub open spec fn unsigned_float_literal(s: Seq<char>) -> bool {
    ||| spells_ignoring_case(s, seq!['i', 'n', 'f'])
    ||| spells_ignoring_case(s, seq!['i', 'n', 'f', 'i', 'n', 'i', 't', 'y'])
    ||| spells_ignoring_case(s, seq!['n', 'a', 'n'])
    ||| is_decimal_number(s)
}

/// The strings that a 64-bit float reads from: the grammar that the standard
/// library documents for `f64::from_str`, letters taken without regard to case.
/// `Float ::= Sign? ( 'inf' | 'infinity' | 'nan' | Number )`
pub open spec fn is_float_literal(s: Seq<char>) -> bool {
    if s.len() > 0 && is_sign(s[0]) {
        unsigned_float_literal(s.drop_first())
    } else {
        unsigned_float_literal(s)
    }
}

fn is_digit_char(c: char) -> (r: bool)
    ensures
        r == is_digit(c),
{
    '0' <= c && c <= '9'
}

/// Whether `cs[lo..hi]` spells `word` (lower-case ASCII) with any mix of cases.
fn spells_in(cs: &Vec<char>, lo: usize, hi: usize, word: &[char]) -> (r: bool)
    requires
        lo <= hi <= cs.len(),
    ensures
        r == spells_ignoring_case(cs@.subrange(lo as int, hi as int), word@),
{
    let ghost s = cs@.subrange(lo as int, hi as int);
    if hi - lo != word.len() {
        return false;
    }
    let mut k: usize = 0;
    while k < word.len()
        invariant
            lo <= hi <= cs.len(),
            s == cs@.subrange(lo as int, hi as int),
            s.len() == word@.len(),
            k <= word.len(),
            forall|j: int| 0 <= j < k ==> same_letter_ignoring_case(#[trigger] s[j], word@[j]),
        decreases word.len() - k,
    {
        let c = cs[lo + k];
        let w = word[k];
        if !(c == w || ('a' <= w && w <= 'z' && c as u32 == w as u32 - 32)) {
            assert(!same_letter_ignoring_case(s[k as int], word@[k as int]));
            return false;
        }
        k += 1;
    }
    true
}

fn mantissa_in(cs: &Vec<char>, lo: usize, hi: usize) -> (r: bool)
    requires
        lo <= hi <= cs.len(),
    ensures
        r == is_mantissa(cs@.subrange(lo as int, hi as int)),
{
    let ghost m = cs@.subrange(lo as int, hi as int);
    let mut i = lo;
    let mut dot_at: usize = hi;
    while i < hi
        invariant
            lo <= i <= hi,
            hi <= cs.len(),
            m == cs@.subrange(lo as int, hi as int),
            forall|k: int| 0 <= k < i - lo ==> is_digit(#[trigger] m[k]) || m[k] == '.',
            dot_at == hi ==> forall|k: int| 0 <= k < i - lo ==> #[trigger] m[k] != '.',
            dot_at != hi ==> lo <= dot_at < i && m[dot_at - lo] == '.' && forall|k: int|
                0 <= k < i - lo && k != dot_at - lo ==> #[trigger] m[k] != '.',
        decreases hi - i,
    {
        let c = cs[i];
        if c == '.' {
            if dot_at != hi {
                assert(m[dot_at - lo] == '.' && m[i - lo] == '.');
                return false;
            }
            dot_at = i;
        } else if !is_digit_char(c) {
            assert(!(is_digit(m[i - lo]) || m[i - lo] == '.'));
            return false;
        }
        i += 1;
    }
    if hi > lo && !(hi - lo == 1 && dot_at != hi) {
        true
    } else {
        if hi - lo == 1 && dot_at != hi {
            assert(m[0] == '.');
        }
        false
    }
}

fn all_digits_in(cs: &Vec<char>, lo: usize, hi: usize) -> (r: bool)
    requires
        lo <= hi <= cs.len(),
    ensures
        r == all_digits(cs@.subrange(lo as int, hi as int)),
{
    let ghost s = cs@.subrange(lo as int, hi as int);
    let mut i = lo;
    while i < hi
        invariant
            lo <= i <= hi <= cs.len(),
            s == cs@.subrange(lo as int, hi as int),
            forall|k: int| 0 <= k < i - lo ==> is_digit(#[trigger] s[k]),
        decreases hi - i,
    {
        if !is_digit_char(cs[i]) {
            assert(!is_digit(s[i - lo]));
            return false;
        }
        i += 1;
    }
    true
}

fn exponent_part_in(cs: &Vec<char>, lo: usize, hi: usize) -> (r: bool)
    requires
        lo <= hi <= cs.len(),
    ensures
        r == is_exponent_part(cs@.subrange(lo as int, hi as int)),
{
    let ghost x = cs@.subrange(lo as int, hi as int);
    if lo < hi && (cs[lo] == '+' || cs[lo] == '-') {
        assert(x.drop_first() =~= cs@.subrange(lo + 1, hi as int));
        hi - lo > 1 && all_digits_in(cs, lo + 1, hi)
    } else {
        lo < hi && all_digits_in(cs, lo, hi)
    }
}

fn decimal_number_in(cs: &Vec<char>, lo: usize, hi: usize) -> (r: bool)
    requires
        lo <= hi <= cs.len(),
    ensures
        r == is_decimal_number(cs@.subrange(lo as int, hi as int)),
{
    let ghost s = cs@.subrange(lo as int, hi as int);
    let mut p = lo;
    while p < hi && !(cs[p] == 'e' || cs[p] == 'E')
        invariant
            lo <= p <= hi <= cs.len(),
            s == cs@.subrange(lo as int, hi as int),
            forall|k: int| 0 <= k < p - lo ==> !is_exponent_marker(#[trigger] s[k]),
        decreases hi - p,
    {
        p += 1;
    }
    if p == hi {
        let r = mantissa_in(cs, lo, hi);
        if !r {
            assert forall|q: int| 0 <= q < s.len() implies !is_exponent_marker(#[trigger] s[q]) by {}
        }
        r
    } else {
        let ghost q = p - lo;
        assert(s.take(q) =~= cs@.subrange(lo as int, p as int));
        assert(s.skip(q + 1) =~= cs@.subrange(p + 1, hi as int));
        let m = mantissa_in(cs, lo, p);
        let e = exponent_part_in(cs, p + 1, hi);
        assert(is_exponent_marker(s[q]));
        assert(!is_mantissa(s)) by {
            assert(!(is_digit(s[q]) || s[q] == '.'));
        }
        if !(m && e) {
            assert forall|p2: int|
                0 <= p2 < s.len() && is_exponent_marker(#[trigger] s[p2]) && is_mantissa(s.take(p2))
                    implies !is_exponent_part(s.skip(p2 + 1)) by {
                if p2 > q {
                    assert(s.take(p2)[q] == s[q]);
                    assert(!(is_digit(s.take(p2)[q]) || s.take(p2)[q] == '.'));
                } else if p2 < q {
                    assert(!is_exponent_marker(s[p2]));
                }
            }
        }
        m && e
    }
}

/// Whether `s` reads as a 64-bit float (see `is_float_literal`).
pub fn float_literal(s: &str) -> (r: bool)
    ensures
        r == is_float_literal(s@),
{
    let cs = chars_of(s);
    let n = cs.len();
    let lo: usize = if n > 0 && (cs[0] == '+' || cs[0] == '-') { 1 } else { 0 };
    let ghost body = cs@.subrange(lo as int, n as int);
    assert(lo == 1 ==> body =~= s@.drop_first());
    assert(lo == 0 ==> body =~= s@);
    spells_in(&cs, lo, n, &['i', 'n', 'f'])
        || spells_in(&cs, lo, n, &['i', 'n', 'f', 'i', 'n', 'i', 't', 'y'])
        || spells_in(&cs, lo, n, &['n', 'a', 'n'])
        || decimal_number_in(&cs, lo, n)
}

} // verus!

verus! {

/// The Unicode `White_Space` property: the 25 code points that the Unicode
/// Character Database (`PropList.txt`) lists for it.
pub open spec fn is_white_space(c: char) -> bool {
    let u = c as u32;
    ||| 0x09 <= u <= 0x0D
    ||| u == 0x20
    ||| u == 0x85
    ||| u == 0xA0
    ||| u == 0x1680
    ||| 0x2000 <= u <= 0x200A
    ||| u == 0x2028
    ||| u == 0x2029
    ||| u == 0x202F
    ||| u == 0x205F
    ||| u == 0x3000
}

/// Whether `c` has the Unicode `White_Space` property.
pub fn is_white_space_char(c: char) -> (r: bool)
    ensures
        r == is_white_space(c),
{
    let u = c as u32;
    (0x09 <= u && u <= 0x0D) || u == 0x20 || u == 0x85 || u == 0xA0 || u == 0x1680 || (0x2000 <= u
        && u <= 0x200A) || u == 0x2028 || u == 0x2029 || u == 0x202F || u == 0x205F || u == 0x3000
}

/// `s` without its leading white space.
pub open spec fn trim_start(s: Seq<char>) -> Seq<char>
    decreases s.len(),
{
    if s.len() > 0 && is_white_space(s[0]) {
        trim_start(s.drop_first())
    } else {
        s
    }
}

/// `s` without its trailing white space.
pub open spec fn trim_end(s: Seq<char>) -> Seq<char>
    decreases s.len(),
{
    if s.len() > 0 && is_white_space(s.last()) {
        trim_end(s.drop_last())
    } else {
        s
    }
}

/// `s` without its leading and trailing white space.
pub open spec fn trimmed(s: Seq<char>) -> Seq<char> {
    trim_end(trim_start(s))
}

/// `s` without its leading and trailing white space (what `str::trim` gives).
pub fn trim(s: &str) -> (r: &str)
    ensures
        r@ == trimmed(s@),
{
    let cs = chars_of(s);
    let n = cs.len();
    let mut start: usize = 0;
    assert(s@.subrange(0, n as int) =~= s@);
    while start < n && is_white_space_char(cs[start])
        invariant
            start <= n,
            n == cs@.len(),
            cs@ == s@,
            trim_start(s@) == trim_start(s@.subrange(start as int, n as int)),
        decreases n - start,
    {
        assert(s@.subrange(start as int, n as int).drop_first() =~= s@.subrange(start + 1, n as int));
        start += 1;
    }
    let ghost front = s@.subrange(start as int, n as int);
    assert(trim_start(front) == front);
    let mut end: usize = n;
    while end > start && is_white_space_char(cs[end - 1])
        invariant
            start <= end <= n,
            n == cs@.len(),
            cs@ == s@,
            front == s@.subrange(start as int, n as int),
            trim_end(front) == trim_end(s@.subrange(start as int, end as int)),
        decreases end - start,
    {
        assert(s@.subrange(start as int, end as int).drop_last() =~= s@.subrange(start as int, end - 1));
        end -= 1;
    }
    assert(trim_end(s@.subrange(start as int, end as int)) == s@.subrange(start as int, end as int));
    s.substring_char(start, end)
}

/// What `str::to_lowercase` gives for a string (Unicode lower-case mapping).
pub uninterp spec fn lowercased(s: Seq<char>) -> Seq<char>;

/// Every character of `s` is ASCII.
pub open spec fn all_ascii(s: Seq<char>) -> bool {
    forall|i: int| 0 <= i < s.len() ==> (#[trigger] s[i] as u32) < 128
}

/// `c` in lower case, for an ASCII letter; otherwise `c`.
pub open spec fn ascii_lower(c: char) -> char {
    if 'A' <= c && c <= 'Z' {
        ((c as u32) + 32) as char
    } else {
        c
    }
}

/// The lower-case form of `s`: ASCII text with `A`–`Z` made `a`–`z`; other text
/// as `str::to_lowercase` gives it.
pub open spec fn lower_case(s: Seq<char>) -> Seq<char> {
    if all_ascii(s) {
        s.map_values(|c: char| ascii_lower(c))
    } else {
        lowercased(s)
    }
}

/// Calls `str::to_lowercase`. Claims that the result is what `lowercased`
/// names, and that on ASCII text it maps `A`–`Z` to `a`–`z` and keeps every
/// other character (the Unicode lower-case mapping of the ASCII range). The
/// mapping of other characters is left unstated.
#[verifier::external_body]
pub(crate) fn to_lowercase(s: &str) -> (r: String)
    ensures
        r@ == lowercased(s@),
        all_ascii(s@) ==> r@ == s@.map_values(|c: char| ascii_lower(c)),
{
    s.to_lowercase()
}

/// `s` with every comma replaced by a point.
pub open spec fn commas_to_points(s: Seq<char>) -> Seq<char> {
    s.map_values(|c: char| if c == ',' { '.' } else { c })
}

/// A copy of `s` with every comma replaced by a point.
pub fn replace_commas(s: &str) -> (r: String)
    ensures
        r@ == commas_to_points(s@),
{
    let cs = chars_of(s);
    let mut out = String::new();
    let mut i: usize = 0;
    while i < cs.len()
        invariant
            i <= cs.len(),
            cs@ == s@,
            out@ == commas_to_points(s@).take(i as int),
        decreases cs.len() - i,
    {
        let c = cs[i];
        push_char(&mut out, if c == ',' { '.' } else { c });
        assert(commas_to_points(s@).take(i + 1) =~= commas_to_points(s@).take(i as int).push(
            if c == ',' { '.' } else { c },
        ));
        i += 1;
    }
    assert(commas_to_points(s@).take(i as int) =~= commas_to_points(s@));
    out
}

/// Calls `String::push`, which appends one character.
#[verifier::external_body]
pub(crate) fn push_char(s: &mut String, c: char)
    ensures
        final(s)@ == old(s)@.push(c),
{
    s.push(c)
}

/// Whether `a` holds exactly the characters of `b`.
pub fn equals_str(a: &String, b: &str) -> (r: bool)
    ensures
        r == (a@ == b@),
{
    let other = b.to_string();
    *a == other
}

/// `"` + `value` + `"` + `rest`: the shape of every parse error message.
pub open spec fn quoted_then(value: Seq<char>, rest: Seq<char>) -> Seq<char> {
    seq!['"'] + value + rest
}

/// Builds `quoted_then(value, rest)`.
pub fn quote_then(value: &str, rest: &str) -> (r: String)
    ensures
        r@ == quoted_then(value@, rest@),
{
    let mut msg = String::new();
    push_char(&mut msg, '"');
    msg.append(value);
    msg.append(rest);
    msg
}

} // verus!
