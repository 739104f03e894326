//! How numbers are written, and what the texts that are no numbers look like.

use crate::ast::Base;
use crate::num::{
    base_radix, digit_value, digits_value, finish_parsing_base, finish_parsing_int, literal_value,
    number_value, MalformedNumber,
};
use vstd::prelude::*;

verus! {

/// Whether a text is made of digits only, and of one at least.
pub open spec fn is_digits(text: Seq<char>, radix: int) -> bool {
    &&& text.len() > 0
    &&& forall|i: int| 0 <= i < text.len() ==> digit_value(#[trigger] text[i], radix) is Some
}

/// The digits from zero to nine come first, and then the letters in their order, small or large.
/// A character is a digit of some base if its value is below the base, and no other character is
/// one.
pub proof fn digits_in_order(digit: char, radix: int, value: int)
    requires
        0 < radix <= 36,
    ensures
        digit_value(digit, radix) == Some(value) <==> {
            &&& 0 <= value < radix
            &&& value < 10 ==> digit as int == '0' as int + value
            &&& value >= 10 ==> digit as int == 'a' as int + (value - 10) || digit as int == 'A' as int
                + (value - 10)
        },
        digit_value('_', radix) is None,
        digit_value('-', radix) is None,
        digit_value('+', radix) is None,
{
}

/// The text of one digit reads as that digit's value.
pub proof fn one_digit_reads_as_its_value(digit: char, radix: int)
    requires
        0 < radix <= 36,
        digit_value(digit, radix) is Some,
    ensures
        number_value(seq![digit], radix) == digit_value(digit, radix),
{
    digits_in_order(digit, radix, digit_value(digit, radix)->0);
    written_digits(seq![digit], radix);
    assert(seq![digit].drop_last() =~= Seq::empty());
    assert(digits_value(Seq::empty(), radix) == Some(0int));
    assert(0 * radix == 0);
}

/// A digit behind some others moves each of them one place up.
pub proof fn next_digit_moves_the_others_up(text: Seq<char>, digit: char, radix: int)
    requires
        0 < radix <= 36,
        is_digits(text, radix),
        digit_value(digit, radix) is Some,
    ensures
        number_value(text, radix) is Some,
        number_value(text.push(digit), radix) == Some(
            number_value(text, radix)->0 * radix + digit_value(digit, radix)->0,
        ),
{
    let longer = text.push(digit);
    assert(longer.drop_last() =~= text);
    assert forall|i: int| 0 <= i < longer.len() implies digit_value(
        #[trigger] longer[i],
        radix,
    ) is Some by {
        if i < text.len() {
            assert(longer[i] == text[i]);
        }
    }
    written_digits(text, radix);
    written_digits(longer, radix);
}

/// Digits are read as they stand: neither an underscore nor a sign is among them.
proof fn written_digits(text: Seq<char>, radix: int)
    requires
        0 < radix <= 36,
        is_digits(text, radix),
    ensures
        digits_value(text, radix) is Some,
        digits_value(text, radix)->0 >= 0,
        number_value(text, radix) == digits_value(text, radix),
{
    let keep = |c: char| c != '_';
    assert forall|i: int| 0 <= i < text.len() implies keep(#[trigger] text[i]) && text[i] != '-'
        && text[i] != '+' by {
        digits_in_order(text[i], radix, 0);
    }
    all_kept(text, keep);
    all_digits_are_read(text, radix);
}

proof fn all_digits_are_read(text: Seq<char>, radix: int)
    requires
        0 < radix <= 36,
        forall|i: int| 0 <= i < text.len() ==> digit_value(#[trigger] text[i], radix) is Some,
    ensures
        digits_value(text, radix) is Some,
        digits_value(text, radix)->0 >= 0,
    decreases text.len(),
{
    if text.len() > 0 {
        let rest = text.drop_last();
        assert(forall|i: int| 0 <= i < rest.len() ==> #[trigger] rest[i] == text[i]);
        all_digits_are_read(rest, radix);
        let high = digits_value(rest, radix)->0;
        assert(text.last() == text[text.len() - 1]);
        assert(high * radix >= 0) by (nonlinear_arith)
            requires
                high >= 0,
                radix > 0,
        ;
    }
}

proof fn all_kept(text: Seq<char>, keep: spec_fn(char) -> bool)
    requires
        forall|i: int| 0 <= i < text.len() ==> keep(#[trigger] text[i]),
    ensures
        text.filter(keep) == text,
    decreases text.len(),
{
    reveal(Seq::filter);
    if text.len() > 0 {
        let rest = text.drop_last();
        assert(forall|i: int| 0 <= i < rest.len() ==> #[trigger] rest[i] == text[i]);
        all_kept(rest, keep);
        assert(text.last() == text[text.len() - 1]);
        assert(rest.push(text.last()) =~= text);
    } else {
        assert(text.filter(keep) =~= text);
    }
}

/// An underscore does not matter, wherever it stands.
pub proof fn underscores_do_not_matter(before: Seq<char>, behind: Seq<char>, radix: int)
    ensures
        number_value(before + seq!['_'] + behind, radix) == number_value(before + behind, radix),
{
    let keep = |c: char| c != '_';
    Seq::filter_distributes_over_add(before + seq!['_'], behind, keep);
    Seq::filter_distributes_over_add(before, seq!['_'], keep);
    Seq::filter_distributes_over_add(before, behind, keep);
    reveal(Seq::filter);
    assert(seq!['_'].filter(keep) =~= Seq::empty()) by {
        assert(seq!['_'].drop_last() =~= Seq::empty());
        assert(Seq::<char>::empty().filter(keep) =~= Seq::empty());
    }
    assert(before.filter(keep) + Seq::empty() =~= before.filter(keep));
}

/// A minus in front of a text that has no sign makes the opposite number of it, a plus
/// changes nothing, and both leave what is no number what it is.
pub proof fn sign_comes_first(text: Seq<char>, radix: int)
    requires
        text.len() > 0,
        text[0] != '-',
        text[0] != '+',
        text[0] != '_',
    ensures
        (match number_value(text, radix) {
            Some(number) => {
                &&& number_value(seq!['-'] + text, radix) == Some(-number)
                &&& number_value(seq!['+'] + text, radix) == Some(number)
            },
            None => {
                &&& number_value(seq!['-'] + text, radix) is None
                &&& number_value(seq!['+'] + text, radix) is None
            },
        }),
{
    let keep = |c: char| c != '_';
    one_kept(text[0], keep);
    one_kept('-', keep);
    one_kept('+', keep);
    Seq::filter_distributes_over_add(seq!['-'], text, keep);
    Seq::filter_distributes_over_add(seq!['+'], text, keep);
    Seq::filter_distributes_over_add(seq![text[0]], text.drop_first(), keep);
    assert(seq![text[0]] + text.drop_first() =~= text);
    let written = text.filter(keep);
    assert(written[0] == text[0]);
    assert((seq!['-'] + written).drop_first() =~= written);
    assert((seq!['+'] + written).drop_first() =~= written);
}

proof fn one_kept(c: char, keep: spec_fn(char) -> bool)
    requires
        keep(c),
    ensures
        seq![c].filter(keep) == seq![c],
{
    all_kept(seq![c], keep);
}

/// A text without a digit is no number.
pub proof fn without_digits_there_is_no_number(radix: int)
    ensures
        number_value(Seq::empty(), radix) is None,
        number_value(seq!['-'], radix) is None,
        number_value(seq!['+'], radix) is None,
{
    let keep = |c: char| c != '_';
    reveal(Seq::filter);
    one_kept('-', keep);
    one_kept('+', keep);
    assert(seq!['-'].drop_first() =~= Seq::empty());
    assert(seq!['+'].drop_first() =~= Seq::empty());
}

/// A text is no number if a character stands in it that is neither a digit nor an underscore,
/// unless it is a sign with at most underscores before it.
pub proof fn other_characters_make_no_number(
    before: Seq<char>,
    other: char,
    behind: Seq<char>,
    radix: int,
)
    requires
        other != '_',
        digit_value(other, radix) is None,
        (other == '-' || other == '+') ==> exists|i: int|
            0 <= i < before.len() && #[trigger] before[i] != '_',
    ensures
        number_value(before + seq![other] + behind, radix) is None,
{
    let keep = |c: char| c != '_';
    one_kept(other, keep);
    Seq::filter_distributes_over_add(before + seq![other], behind, keep);
    Seq::filter_distributes_over_add(before, seq![other], keep);
    let first = before.filter(keep);
    let written = (before + seq![other] + behind).filter(keep);
    assert(written =~= first + seq![other] + behind.filter(keep));
    assert(written[first.len() as int] == other);
    if exists|i: int| 0 <= i < before.len() && #[trigger] before[i] != '_' {
        let i = choose|i: int| 0 <= i < before.len() && #[trigger] before[i] != '_';
        before.lemma_filter_contains(keep, i);
        assert(first.len() > 0);
    }
    let signed = written[0] == '-' || written[0] == '+';
    let digits = if signed {
        written.drop_first()
    } else {
        written
    };
    let at = if signed {
        first.len() - 1
    } else {
        first.len() as int
    };
    assert(digits[at] == other);
    one_other_character_spoils_all(digits, at, radix);
}

proof fn one_other_character_spoils_all(digits: Seq<char>, at: int, radix: int)
    requires
        0 <= at < digits.len(),
        digit_value(digits[at], radix) is None,
    ensures
        digits_value(digits, radix) is None,
    decreases digits.len(),
{
    if at < digits.len() - 1 {
        assert(digits.drop_last()[at] == digits[at]);
        one_other_character_spoils_all(digits.drop_last(), at, radix);
    }
}

/// A literal stands for the number it reads if an `i64` can hold that, and for nothing otherwise.
pub proof fn literal_is_the_number_that_fits(text: Seq<char>, radix: int, value: i64)
    ensures
        literal_value(text, radix) == Some(value) <==> number_value(text, radix) == Some(
            value as int,
        ),
        literal_value(text, radix) is None <==> (number_value(text, radix) matches Some(number)
            ==> number < -0x8000_0000_0000_0000 || number > 0x7fff_ffff_ffff_ffff),
{
}

/// Hexadecimal literals have sixteen digits, octal ones eight and binary ones two.
pub proof fn digits_of_each_base()
    ensures
        base_radix(Base::Hex) == 16,
        base_radix(Base::Octal) == 8,
        base_radix(Base::Binary) == 2,
{
}

/// Reading a literal gives the number that it stands for in base 10, or in the base that it
/// is read in, and fails if there is none or an `i64` cannot hold it.
pub proof fn literals_are_read_in_their_base(
    raw: &str,
    decimal: Result<i64, MalformedNumber>,
    hex: Result<i64, MalformedNumber>,
    octal: Result<i64, MalformedNumber>,
    binary: Result<i64, MalformedNumber>,
    value: i64,
)
    requires
        call_ensures(finish_parsing_int, (raw,), decimal),
        call_ensures(finish_parsing_base, (raw, Base::Hex), hex),
        call_ensures(finish_parsing_base, (raw, Base::Octal), octal),
        call_ensures(finish_parsing_base, (raw, Base::Binary), binary),
    ensures
        decimal == Ok::<i64, MalformedNumber>(value) <==> number_value(raw@, 10) == Some(
            value as int,
        ),
        hex == Ok::<i64, MalformedNumber>(value) <==> number_value(raw@, 16) == Some(value as int),
        octal == Ok::<i64, MalformedNumber>(value) <==> number_value(raw@, 8) == Some(
            value as int,
        ),
        binary == Ok::<i64, MalformedNumber>(value) <==> number_value(raw@, 2) == Some(
            value as int,
        ),
{
}

/// How a number is written.
pub open spec fn numeral(number: nat, radix: nat) -> Seq<char>
    decreases number,
    when radix >= 2
{
    let digit = (if number % radix < 10 {
        '0' as int + number % radix
    } else {
        'a' as int + (number % radix - 10)
    }) as char;
    if number < radix {
        seq![digit]
    } else {
        proof {
            assert(number / radix < number) by (nonlinear_arith)
                requires
                    number >= radix,
                    radix >= 2,
            ;
        }
        numeral((number / radix) as nat, radix).push(digit)
    }
}

/// Every number is what it is written as, and so is its opposite behind a minus.
pub proof fn numerals_read_as_what_was_written(number: nat, radix: nat)
    requires
        2 <= radix <= 36,
    ensures
        number_value(numeral(number, radix), radix as int) == Some(number as int),
        number_value(seq!['-'] + numeral(number, radix), radix as int) == Some(-number),
{
    numeral_is_digits(number, radix);
    let text = numeral(number, radix);
    digits_in_order(text[0], radix as int, 0);
    sign_comes_first(text, radix as int);
}

proof fn numeral_is_digits(number: nat, radix: nat)
    requires
        2 <= radix <= 36,
    ensures
        is_digits(numeral(number, radix), radix as int),
        number_value(numeral(number, radix), radix as int) == Some(number as int),
    decreases number,
{
    let low = number % radix;
    let digit = (if low < 10 {
        '0' as int + low
    } else {
        'a' as int + (low - 10)
    }) as char;
    assert(0 <= low < radix);
    digits_in_order(digit, radix as int, low as int);
    if number < radix {
        assert(low == number) by (nonlinear_arith)
            requires
                0 <= number < radix,
                low == number % radix,
        ;
        one_digit_reads_as_its_value(digit, radix as int);
    } else {
        let high = (number / radix) as nat;
        assert(high < number && number == high * radix + low) by (nonlinear_arith)
            requires
                number >= radix,
                radix >= 2,
                high == number / radix,
                low == number % radix,
        ;
        numeral_is_digits(high, radix);
        next_digit_moves_the_others_up(numeral(high, radix), digit, radix as int);
    }
}

} // verus!
