//! Field values and the texts that are read as numbers.
//!
//! Every field column holds a 64-bit float. The library never does float arithmetic: a value
//! that arrives as a float is carried by its bit pattern, a count stays an integer, and a tag
//! text stays the text, once it is known to be a number.
use vstd::prelude::*;

verus! {

/// A 64-bit IEEE 754 float, carried by its bit pattern.
#[derive(Clone, Copy, Debug, PartialEq, Eq)]
pub struct Float64 {
    pub bits: u64,
}

/// What a field column holds.
#[derive(Clone, Debug, PartialEq, Eq)]
pub enum FieldValue {
    /// A float that came with the metric.
    Given(Float64),
    /// The float that a text denotes; the text satisfies [`is_float_text`].
    Parsed(String),
    /// The float nearest to a count.
    Counted(u64),
}

/// The model of a [`FieldValue`].
pub enum FieldValueView {
    Given(u64),
    Parsed(Seq<char>),
    Counted(nat),
}

impl View for FieldValue {
    type V = FieldValueView;

    open spec fn view(&self) -> FieldValueView {
        match *self {
            FieldValue::Given(value) => FieldValueView::Given(value.bits),
            FieldValue::Parsed(text) => FieldValueView::Parsed(text@),
            FieldValue::Counted(count) => FieldValueView::Counted(count as nat),
        }
    }
}

/// A decimal digit.
pub open spec fn is_digit(c: char) -> bool {
    '0' <= c && c <= '9'
}

/// A sequence of digits, possibly empty.
pub open spec fn all_digits(s: Seq<char>) -> bool {
    forall|i: int| 0 <= i < s.len() ==> is_digit(#[trigger] s[i])
}

/// What is left of `s` after one optional leading sign.
pub open spec fn without_sign(s: Seq<char>) -> Seq<char> {
    if s.len() > 0 && (s[0] == '+' || s[0] == '-') {
        s.skip(1)
    } else {
        s
    }
}

/// Digits, at least one, with at most one point before, among or after them.
pub open spec fn is_mantissa(s: Seq<char>) -> bool {
    ||| s.len() > 0 && all_digits(s)
    ||| exists|point: int|
        0 <= point < s.len() && s.len() > 1 && #[trigger] s[point] == '.' && all_digits(s.take(point))
            && all_digits(s.skip(point + 1))
}

/// The letter `e` in either case, an optional sign, and at least one digit.
pub open spec fn is_exponent(s: Seq<char>) -> bool {
    &&& s.len() > 0
    &&& s[0] == 'e' || s[0] == 'E'
    &&& without_sign(s.skip(1)).len() > 0
    &&& all_digits(without_sign(s.skip(1)))
}

/// A mantissa, or a mantissa followed by an exponent.
pub open spec fn is_decimal(s: Seq<char>) -> bool {
    ||| is_mantissa(s)
    ||| exists|k: int| 0 <= k <= s.len() && #[trigger] is_mantissa(s.take(k)) && is_exponent(s.skip(k))
}

/// `s` spells a word when the case of letters is disregarded; the word is given in both cases.
pub open spec fn spells(s: Seq<char>, lower: Seq<char>, upper: Seq<char>) -> bool {
    &&& s.len() == lower.len()
    &&& forall|i: int| 0 <= i < s.len() ==> #[trigger] s[i] == lower[i] || s[i] == upper[i]
}

/// The texts that denote a 64-bit float: an optional sign, and then an infinity, a NaN or a
/// decimal number. No white space is allowed anywhere.
pub open spec fn is_float_text(s: Seq<char>) -> bool {
    let body = without_sign(s);
    ||| spells(body, seq!['i', 'n', 'f'], seq!['I', 'N', 'F'])
    ||| spells(
        body,
        seq!['i', 'n', 'f', 'i', 'n', 'i', 't', 'y'],
        seq!['I', 'N', 'F', 'I', 'N', 'I', 'T', 'Y'],
    )
    ||| spells(body, seq!['n', 'a', 'n'], seq!['N', 'A', 'N'])
    ||| is_decimal(body)
}

/// The characters of a text.
fn chars_of(text: &str) -> (chars: Vec<char>)
    ensures
        chars@ == text@,
{
    let mut chars: Vec<char> = Vec::new();
    for c in it: text.chars()
        invariant
            chars@ == text@.take(it.index() as int),
            it.seq() == text@,
    {
        chars.push(c);
    }
    chars
}

/// Whether the characters from `start` on spell the word given in both cases.
fn spells_at(chars: &Vec<char>, start: usize, lower: &[char], upper: &[char]) -> (found: bool)
    requires
        start <= chars@.len(),
        lower@.len() == upper@.len(),
    ensures
        found == spells(chars@.skip(start as int), lower@, upper@),
{
    let ghost rest = chars@.skip(start as int);
    let len: usize = chars.len();
    if len - start != lower.len() {
        return false;
    }
    for i in 0..len - start
        invariant
            len == chars@.len(),
            start <= len,
            rest == chars@.skip(start as int),
            rest.len() == lower@.len(),
            lower@.len() == upper@.len(),
            forall|j: int| 0 <= j < i ==> #[trigger] rest[j] == lower@[j] || rest[j] == upper@[j],
    {
        assert(rest[i as int] == chars@[start + i]);
        if chars[start + i] != lower[i] && chars[start + i] != upper[i] {
            return false;
        }
    }
    true
}

/// The end of the run of digits that begins at `start`.
fn digits_end(chars: &Vec<char>, start: usize) -> (end: usize)
    requires
        start <= chars@.len(),
    ensures
        start <= end <= chars@.len(),
        all_digits(chars@.subrange(start as int, end as int)),
        end < chars@.len() ==> !is_digit(chars@[end as int]),
{
    let mut end: usize = start;
    while end < chars.len() && '0' <= chars[end] && chars[end] <= '9'
        invariant
            start <= end <= chars@.len(),
            forall|i: int| start <= i < end ==> is_digit(#[trigger] chars@[i]),
        decreases chars@.len() - end,
    {
        end = end + 1;
    }
    end
}

/// The end of an optional sign at `start`.
fn sign_end(chars: &Vec<char>, start: usize) -> (end: usize)
    requires
        start <= chars@.len(),
    ensures
        start <= end <= chars@.len(),
        chars@.skip(end as int) == without_sign(chars@.skip(start as int)),
{
    if start < chars.len() && (chars[start] == '+' || chars[start] == '-') {
        assert(chars@.skip(start as int).skip(1) =~= chars@.skip(start + 1));
        start + 1
    } else {
        start
    }
}

/// Whether the characters from `start` on are an exponent.
fn exponent_at(chars: &Vec<char>, start: usize) -> (found: bool)
    requires
        start <= chars@.len(),
    ensures
        found == is_exponent(chars@.skip(start as int)),
{
    let ghost rest = chars@.skip(start as int);
    if start >= chars.len() || (chars[start] != 'e' && chars[start] != 'E') {
        return false;
    }
    assert(rest.skip(1) =~= chars@.skip(start + 1));
    let digits = sign_end(chars, start + 1);
    let end = digits_end(chars, digits);
    let ghost power = chars@.skip(digits as int);
    proof {
        if end < chars@.len() {
            assert(power[end - digits] == chars@[end as int]);
        } else {
            assert(power =~= chars@.subrange(digits as int, end as int));
        }
    }
    digits < end && end == chars.len()
}

/// A mantissa is determined by where its run of digits ends: the point, if there is one, stands
/// right there.
proof fn lemma_mantissa_point(s: Seq<char>, first: int, point: int)
    requires
        0 <= first <= s.len(),
        all_digits(s.take(first)),
        first < s.len() ==> !is_digit(s[first]),
        0 <= point < s.len(),
        s[point] == '.',
        all_digits(s.take(point)),
    ensures
        point == first,
{
    if point < first {
        assert(s.take(first)[point] == '.');
    }
    if first < point {
        assert(s.take(point)[first] == s[first]);
    }
}

/// Whether the characters from `start` on are a decimal number.
fn decimal_at(chars: &Vec<char>, start: usize) -> (found: bool)
    requires
        start <= chars@.len(),
    ensures
        found == is_decimal(chars@.skip(start as int)),
{
    let ghost rest = chars@.skip(start as int);
    let first = digits_end(chars, start);
    let ghost d = first - start;
    assert(rest.take(d) =~= chars@.subrange(start as int, first as int));
    let pointed: bool = first < chars.len() && chars[first] == '.';
    let end = if pointed { digits_end(chars, first + 1) } else { first };
    let ghost m = end - start;
    // The longest prefix that digits and one point can make.
    let digits: usize = if pointed { end - start - 1 } else { end - start };
    assert(digits == 0 || is_mantissa(rest.take(m))) by {
        if pointed {
            let prefix = rest.take(m);
            assert(prefix[d] == '.');
            assert(prefix.take(d) =~= rest.take(d));
            assert(prefix.skip(d + 1) =~= chars@.subrange(first + 1, end as int));
        }
    }
    assert forall|k: int| 0 <= k <= rest.len() && #[trigger] is_mantissa(rest.take(k)) implies
        k <= m && digits > 0 by {
        if pointed {
            assert(rest.subrange(d + 1, m) =~= chars@.subrange(first + 1, end as int));
        }
        lemma_mantissa_fits(rest, d, pointed, m, k);
    }
    if digits == 0 {
        assert(rest.take(rest.len() as int) =~= rest);
        return false;
    }
    assert(rest.skip(m) =~= chars@.skip(end as int));
    if end == chars.len() {
        assert(rest.take(m) =~= rest);
        return true;
    }
    let found = exponent_at(chars, end);
    proof {
        assert(rest.take(rest.len() as int) =~= rest);
        if !found && is_decimal(rest) {
            let k = choose|k: int|
                0 <= k <= rest.len() && #[trigger] is_mantissa(rest.take(k)) && is_exponent(
                    rest.skip(k),
                );
            assert(rest.skip(k)[0] == rest[k]);
            if k < m {
                assert(is_digit(rest[k]) || rest[k] == '.') by {
                    if k < d {
                        assert(rest.take(d)[k] == rest[k]);
                    } else if k > d {
                        assert(chars@.subrange(first + 1, end as int)[k - d - 1] == rest[k]);
                    }
                }
            }
        }
    }
    found
}

/// Every prefix that is a mantissa stays within the leading digits, the point behind them and
/// the digits behind the point.
proof fn lemma_mantissa_fits(s: Seq<char>, d: int, pointed: bool, m: int, k: int)
    requires
        0 <= d <= m <= s.len(),
        all_digits(s.take(d)),
        d < s.len() ==> !is_digit(s[d]),
        pointed == (d < s.len() && s[d] == '.'),
        pointed ==> d < m && all_digits(s.subrange(d + 1, m)) && (m < s.len() ==> !is_digit(s[m])),
        !pointed ==> m == d,
        0 <= k <= s.len(),
        is_mantissa(s.take(k)),
    ensures
        k <= m,
        pointed ==> m > 1,
        !pointed ==> m > 0,
{
    let p = s.take(k);
    if p.len() > 0 && all_digits(p) {
        if k > d {
            assert(p[d] == s[d]);
        }
    } else {
        let point = choose|point: int|
            0 <= point < p.len() && p.len() > 1 && #[trigger] p[point] == '.' && all_digits(
                p.take(point),
            ) && all_digits(p.skip(point + 1));
        assert(s.take(point) =~= p.take(point));
        lemma_mantissa_point(s, d, point);
        if k > m {
            assert(p.skip(point + 1)[m - d - 1] == s[m]);
        }
    }
}

/// Whether a text denotes a 64-bit float.
pub fn is_number(text: &str) -> (found: bool)
    ensures
        found == is_float_text(text@),
{
    let chars = chars_of(text);
    assert(chars@.skip(0) =~= chars@);
    let start = sign_end(&chars, 0);
    spells_at(&chars, start, &['i', 'n', 'f'], &['I', 'N', 'F']) || spells_at(
        &chars,
        start,
        &['i', 'n', 'f', 'i', 'n', 'i', 't', 'y'],
        &['I', 'N', 'F', 'I', 'N', 'I', 'T', 'Y'],
    ) || spells_at(&chars, start, &['n', 'a', 'n'], &['N', 'A', 'N']) || decimal_at(&chars, start)
}

}
