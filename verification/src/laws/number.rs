//! The texts that are numbers, written out character by character.
use crate::number::{
    all_digits, is_decimal, is_digit, is_exponent, is_float_text, is_mantissa, without_sign,
};
use vstd::prelude::*;

verus! {

/// Any text of this make is a number: an optional sign; digits from `0` to `9`, at least one,
/// with an optional point before, among or after them; and optionally the letter `e` in either
/// case, an optional sign and more digits, at least one.
#[verifier::rlimit(60)]
#[verifier::spinoff_prover]
pub proof fn law_decimals_are_numbers(
    sign: Seq<char>,
    whole: Seq<char>,
    point: Seq<char>,
    fraction: Seq<char>,
    mark: Seq<char>,
    power_sign: Seq<char>,
    power: Seq<char>,
)
    requires
        sign.len() == 0 || sign == seq!['+'] || sign == seq!['-'],
        forall|i: int|
            0 <= i < (whole + fraction + power).len() ==> ({
                let c = #[trigger] (whole + fraction + power)[i];
                c == '0' || c == '1' || c == '2' || c == '3' || c == '4' || c == '5' || c == '6' || c
                    == '7' || c == '8' || c == '9'
            }),
        whole.len() + fraction.len() > 0,
        point == seq!['.'] || (point.len() == 0 && fraction.len() == 0),
        mark == seq!['e'] || mark == seq!['E'] || mark.len() == 0,
        mark.len() == 0 ==> power_sign.len() == 0 && power.len() == 0,
        mark.len() == 1 ==> power.len() > 0,
        power_sign.len() == 0 || power_sign == seq!['+'] || power_sign == seq!['-'],
    ensures
        is_float_text(sign + whole + point + fraction + mark + power_sign + power),
{
    let all = whole + fraction + power;
    let text = sign + whole + point + fraction + mark + power_sign + power;
    let mantissa = whole + point + fraction;
    let exponent = mark + power_sign + power;
    let body = mantissa + exponent;
    assert forall|i: int| 0 <= i < whole.len() implies is_digit(#[trigger] whole[i]) by {
        assert(all[i] == whole[i]);
    }
    assert forall|i: int| 0 <= i < fraction.len() implies is_digit(#[trigger] fraction[i]) by {
        assert(all[whole.len() + i] == fraction[i]);
    }
    assert forall|i: int| 0 <= i < power.len() implies is_digit(#[trigger] power[i]) by {
        assert(all[whole.len() + fraction.len() + i] == power[i]);
    }
    assert(is_mantissa(mantissa)) by {
        if point.len() == 0 {
            assert(mantissa =~= whole);
        } else {
            let at = whole.len() as int;
            assert(mantissa[at] == '.');
            assert(mantissa.take(at) =~= whole);
            assert(mantissa.skip(at + 1) =~= fraction);
        }
    }
    assert(without_sign(text) == body) by {
        if sign.len() == 0 {
            assert(text =~= body);
            assert(body[0] == mantissa[0]);
            if whole.len() > 0 {
                assert(mantissa[0] == whole[0]);
            } else {
                assert(mantissa[0] == '.');
            }
        } else {
            assert(text[0] == sign[0]);
            assert(text.skip(1) =~= body);
        }
    }
    if mark.len() == 0 {
        assert(body =~= mantissa);
    } else {
        let at = mantissa.len() as int;
        assert(body.take(at) =~= mantissa);
        assert(body.skip(at) =~= exponent);
        assert(exponent[0] == mark[0]);
        assert(without_sign(exponent.skip(1)) == power) by {
            if power_sign.len() == 0 {
                assert(exponent.skip(1) =~= power);
                assert(is_digit(power[0]));
            } else {
                assert(exponent.skip(1) =~= power_sign + power);
                assert((power_sign + power)[0] == power_sign[0]);
                assert((power_sign + power).skip(1) =~= power);
            }
        }
        assert(is_exponent(exponent));
        assert(is_mantissa(body.take(at)));
    }
}

/// The words `inf`, `infinity` and `nan`, in upper, lower or mixed case and with an optional
/// sign, are numbers.
pub proof fn law_words_for_numbers(sign: Seq<char>, word: Seq<char>)
    requires
        sign.len() == 0 || sign == seq!['+'] || sign == seq!['-'],
        ({
            ||| word.len() == 3 && (word[0] == 'i' || word[0] == 'I') && (word[1] == 'n' || word[1]
                == 'N') && (word[2] == 'f' || word[2] == 'F')
            ||| word.len() == 3 && (word[0] == 'n' || word[0] == 'N') && (word[1] == 'a' || word[1]
                == 'A') && (word[2] == 'n' || word[2] == 'N')
            ||| word.len() == 8 && (word[0] == 'i' || word[0] == 'I') && (word[1] == 'n' || word[1]
                == 'N') && (word[2] == 'f' || word[2] == 'F') && (word[3] == 'i' || word[3] == 'I')
                && (word[4] == 'n' || word[4] == 'N') && (word[5] == 'i' || word[5] == 'I') && (
            word[6] == 't' || word[6] == 'T') && (word[7] == 'y' || word[7] == 'Y')
        }),
    ensures
        is_float_text(sign + word),
{
    let text = sign + word;
    if sign.len() == 0 {
        assert(text =~= word);
    } else {
        assert(text[0] == sign[0]);
        assert(text.skip(1) =~= word);
    }
}

/// The digits before and after the point of a mantissa, and the point.
proof fn lemma_mantissa_parts(mantissa: Seq<char>) -> (parts: (Seq<char>, Seq<char>, Seq<char>))
    requires
        is_mantissa(mantissa),
    ensures
        mantissa == parts.0 + parts.1 + parts.2,
        all_digits(parts.0),
        all_digits(parts.2),
        parts.0.len() + parts.2.len() > 0,
        parts.1 == seq!['.'] || (parts.1.len() == 0 && parts.2.len() == 0),
{
    let nothing = Seq::<char>::empty();
    if all_digits(mantissa) {
        assert(mantissa =~= mantissa + nothing + nothing);
        (mantissa, nothing, nothing)
    } else {
        let at = choose|at: int|
            0 <= at < mantissa.len() && mantissa.len() > 1 && #[trigger] mantissa[at] == '.'
                && all_digits(mantissa.take(at)) && all_digits(mantissa.skip(at + 1));
        assert(mantissa =~= mantissa.take(at) + seq!['.'] + mantissa.skip(at + 1));
        (mantissa.take(at), seq!['.'], mantissa.skip(at + 1))
    }
}

/// The letter, the sign and the digits of an exponent.
proof fn lemma_exponent_parts(exponent: Seq<char>) -> (parts: (Seq<char>, Seq<char>, Seq<char>))
    requires
        is_exponent(exponent),
    ensures
        exponent == parts.0 + parts.1 + parts.2,
        parts.0 == seq!['e'] || parts.0 == seq!['E'],
        parts.1.len() == 0 || parts.1 == seq!['+'] || parts.1 == seq!['-'],
        parts.2.len() > 0,
        all_digits(parts.2),
{
    let rest = exponent.skip(1);
    let power = without_sign(rest);
    let sign = rest.take(rest.len() - power.len());
    let mark = exponent.take(1);
    assert(mark =~= seq!['e'] || mark =~= seq!['E']);
    assert(sign.len() == 0 || sign =~= seq!['+'] || sign =~= seq!['-']);
    assert(exponent =~= mark + sign + power);
    (mark, sign, power)
}

/// The sign of a text, if it has one, and what is left without it.
proof fn lemma_sign(text: Seq<char>) -> (parts: (Seq<char>, Seq<char>))
    ensures
        text == parts.0 + parts.1,
        parts.0.len() == 0 || parts.0 == seq!['+'] || parts.0 == seq!['-'],
        parts.1 == without_sign(text),
{
    let body = without_sign(text);
    let sign = text.take(text.len() - body.len());
    assert(text =~= sign + body);
    assert(sign.len() == 0 || sign =~= seq!['+'] || sign =~= seq!['-']);
    (sign, body)
}

/// The parts of a decimal number.
#[verifier::rlimit(60)]
#[verifier::spinoff_prover]
proof fn lemma_decimal_parts(body: Seq<char>) -> (parts: (
    Seq<char>,
    Seq<char>,
    Seq<char>,
    Seq<char>,
    Seq<char>,
    Seq<char>,
))
    requires
        is_decimal(body),
    ensures
        body == parts.0 + parts.1 + parts.2 + parts.3 + parts.4 + parts.5,
        forall|i: int|
            0 <= i < (parts.0 + parts.2 + parts.5).len() ==> is_digit(
                #[trigger] (parts.0 + parts.2 + parts.5)[i],
            ),
        parts.0.len() + parts.2.len() > 0,
        parts.1 == seq!['.'] || (parts.1.len() == 0 && parts.2.len() == 0),
        parts.3 == seq!['e'] || parts.3 == seq!['E'] || parts.3.len() == 0,
        parts.3.len() == 0 ==> parts.4.len() == 0 && parts.5.len() == 0,
        parts.3.len() == 1 ==> parts.5.len() > 0,
        parts.4.len() == 0 || parts.4 == seq!['+'] || parts.4 == seq!['-'],
{
    let nothing = Seq::<char>::empty();
    if is_mantissa(body) {
        let (whole, point, fraction) = lemma_mantissa_parts(body);
        assert(body =~= whole + point + fraction + nothing + nothing + nothing);
        (whole, point, fraction, nothing, nothing, nothing)
    } else {
        let k = choose|k: int|
            0 <= k <= body.len() && #[trigger] is_mantissa(body.take(k)) && is_exponent(body.skip(k));
        let (whole, point, fraction) = lemma_mantissa_parts(body.take(k));
        let (mark, sign, power) = lemma_exponent_parts(body.skip(k));
        assert(body =~= body.take(k) + body.skip(k));
        assert(body =~= whole + point + fraction + mark + sign + power);
        (whole, point, fraction, mark, sign, power)
    }
}

/// Every number is of one of these makes: it falls into a sign, digits, a point, digits, an `e`,
/// a sign and digits, as far as they are there; or else into a sign and one of the words `inf`,
/// `infinity` and `nan`, which is then given as the first digits.
#[verifier::rlimit(60)]
#[verifier::spinoff_prover]
pub proof fn law_nothing_else_is_a_number(text: Seq<char>) -> (parts: (
    (Seq<char>, Seq<char>, Seq<char>, Seq<char>),
    (Seq<char>, Seq<char>, Seq<char>),
))
    requires
        is_float_text(text),
    ensures
        ({
            let ((sign, whole, point, fraction), (mark, power_sign, power)) = parts;
            let digits = whole + fraction + power;
            let word = whole;
            &&& text == sign + whole + point + fraction + mark + power_sign + power
            &&& sign.len() == 0 || sign == seq!['+'] || sign == seq!['-']
            &&& {
                ||| {
                    &&& forall|i: int|
                        0 <= i < digits.len() ==> ({
                            let c = #[trigger] digits[i];
                            c == '0' || c == '1' || c == '2' || c == '3' || c == '4' || c == '5' || c
                                == '6' || c == '7' || c == '8' || c == '9'
                        })
                    &&& whole.len() + fraction.len() > 0
                    &&& point == seq!['.'] || (point.len() == 0 && fraction.len() == 0)
                    &&& mark == seq!['e'] || mark == seq!['E'] || mark.len() == 0
                    &&& mark.len() == 0 ==> power_sign.len() == 0 && power.len() == 0
                    &&& mark.len() == 1 ==> power.len() > 0
                    &&& power_sign.len() == 0 || power_sign == seq!['+'] || power_sign == seq!['-']
                }
                ||| text == sign + word && word.len() == 3 && (word[0] == 'i' || word[0] == 'I') && (
                word[1] == 'n' || word[1] == 'N') && (word[2] == 'f' || word[2] == 'F')
                ||| text == sign + word && word.len() == 3 && (word[0] == 'n' || word[0] == 'N') && (
                word[1] == 'a' || word[1] == 'A') && (word[2] == 'n' || word[2] == 'N')
                ||| text == sign + word && word.len() == 8 && (word[0] == 'i' || word[0] == 'I') && (
                word[1] == 'n' || word[1] == 'N') && (word[2] == 'f' || word[2] == 'F') && (word[3]
                    == 'i' || word[3] == 'I') && (word[4] == 'n' || word[4] == 'N') && (word[5] == 'i'
                    || word[5] == 'I') && (word[6] == 't' || word[6] == 'T') && (word[7] == 'y'
                    || word[7] == 'Y')
            }
        }),
{
    let nothing = Seq::<char>::empty();
    let (sign, body) = lemma_sign(text);
    if is_decimal(body) {
        let (whole, point, fraction, mark, power_sign, power) = lemma_decimal_parts(body);
        assert(sign + body =~= sign + whole + point + fraction + mark + power_sign + power);
        ((sign, whole, point, fraction), (mark, power_sign, power))
    } else {
        assert(sign + body =~= sign + body + nothing + nothing + nothing + nothing + nothing);
        ((sign, body, nothing, nothing), (nothing, nothing, nothing))
    }
}

}
