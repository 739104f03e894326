use crate::ast::Base;
use vstd::prelude::*;

verus! {

/// Says that a literal is not a number that can be represented.
#[derive(Clone, Copy, Debug, PartialEq, Eq, Structural)]
pub struct MalformedNumber;

/// The value of a digit, where it is one.
pub open spec fn digit_value(digit: char, radix: int) -> Option<int> {
    let value = if '0' <= digit <= '9' {
        digit as int - '0' as int
    } else if 'a' <= digit <= 'z' {
        digit as int - 'a' as int + 10
    } else if 'A' <= digit <= 'Z' {
        digit as int - 'A' as int + 10
    } else {
        radix
    };
    if value < radix {
        Some(value)
    } else {
        None
    }
}

/// The value of digits that are written most significant first.
pub open spec fn digits_value(digits: Seq<char>, radix: int) -> Option<int>
    decreases digits.len(),
{
    if digits.len() == 0 {
        Some(0)
    } else {
        match (digits_value(digits.drop_last(), radix), digit_value(digits.last(), radix)) {
            (Some(high), Some(low)) => Some(high * radix + low),
            _ => None,
        }
    }
}

/// The number that a text stands for, whatever its size: one digit or more, behind
/// a sign or none, with underscores anywhere.
pub open spec fn number_value(text: Seq<char>, radix: int) -> Option<int> {
    let written = text.filter(|c: char| c != '_');
    let signed = written.len() > 0 && (written[0] == '-' || written[0] == '+');
    let digits = if signed {
        written.drop_first()
    } else {
        written
    };
    if digits.len() == 0 {
        None
    } else {
        match digits_value(digits, radix) {
            Some(value) => Some(
                if written[0] == '-' {
                    -value
                } else {
                    value
                },
            ),
            None => None,
        }
    }
}

/// The number that a literal stands for, where it is well formed and an `i64` can hold it.
pub open spec fn literal_value(text: Seq<char>, radix: int) -> Option<i64> {
    match number_value(text, radix) {
        Some(value) if i64::MIN <= value <= i64::MAX => Some(value as i64),
        _ => None,
    }
}

pub open spec fn base_radix(base: Base) -> int {
    match base {
        Base::Hex => 16,
        Base::Octal => 8,
        Base::Binary => 2,
    }
}

fn digit(c: char, radix: u32) -> (value: Option<u32>)
    requires
        2 <= radix <= 16,
    ensures
        (match value {
            Some(v) => digit_value(c, radix as int) == Some(v as int) && v < radix,
            None => digit_value(c, radix as int) is None,
        }),
{
    let value: u32 = if '0' <= c && c <= '9' {
        c as u32 - '0' as u32
    } else if 'a' <= c && c <= 'z' {
        c as u32 - 'a' as u32 + 10
    } else if 'A' <= c && c <= 'Z' {
        c as u32 - 'A' as u32 + 10
    } else {
        radix
    };
    if value < radix {
        Some(value)
    } else {
        None
    }
}

fn without_underscores(raw: &str) -> (written: Vec<char>)
    ensures
        written@ == raw@.filter(|c: char| c != '_'),
{
    let ghost keep = |c: char| c != '_';
    let mut written: Vec<char> = Vec::new();
    for c in it: raw.chars()
        invariant
            it.seq() == raw@,
            keep == (|c: char| c != '_'),
            written@ == raw@.take(it.index() as int).filter(keep),
    {
        proof {
            reveal(Seq::filter);
            assert(raw@.take(it.index() + 1).drop_last() =~= raw@.take(it.index() as int));
        }
        if c != '_' {
            written.push(c);
        }
    }
    proof {
        assert(raw@.take(raw@.len() as int) =~= raw@);
    }
    written
}

/// What an `i64` can hold is at most this far from zero.
const LARGEST_MAGNITUDE: u64 = 0x8000_0000_0000_0000;

/// Reads digits from some place on. `None` stands for a text that is not made of
/// digits only, and for a value above what fits.
fn magnitude(written: &Vec<char>, start: usize, radix: u32) -> (value: Option<u64>)
    requires
        start <= written.len(),
        2 <= radix <= 16,
    ensures
        (match value {
            Some(v) => v <= LARGEST_MAGNITUDE && digits_value(
                written@.skip(start as int),
                radix as int,
            ) == Some(v as int),
            None => digits_value(written@.skip(start as int), radix as int) matches Some(v)
                ==> v > LARGEST_MAGNITUDE,
        }),
{
    let ghost digits = written@.skip(start as int);
    let mut value: u64 = 0;
    let mut fits = true;
    let mut i: usize = start;
    while i < written.len()
        invariant
            start <= i <= written.len(),
            2 <= radix <= 16,
            digits == written@.skip(start as int),
            value <= LARGEST_MAGNITUDE,
            (match digits_value(digits.take(i - start), radix as int) {
                Some(v) => if fits {
                    v == value
                } else {
                    v > LARGEST_MAGNITUDE
                },
                None => !fits,
            }),
        decreases written.len() - i,
    {
        let ghost before = digits_value(digits.take(i - start), radix as int);
        proof {
            assert(0 <= value * radix <= LARGEST_MAGNITUDE * 16) by (nonlinear_arith)
                requires
                    value <= LARGEST_MAGNITUDE,
                    radix <= 16,
            ;
            assert(digits.take(i + 1 - start).drop_last() =~= digits.take(i - start));
            if let Some(v) = before {
                assert(v * radix >= v) by (nonlinear_arith)
                    requires
                        v >= 0,
                        radix >= 2,
                ;
            }
        }
        match digit(written[i], radix) {
            Some(low) => {
                let next: u128 = value as u128 * radix as u128 + low as u128;
                if next <= LARGEST_MAGNITUDE as u128 {
                    value = next as u64;
                } else {
                    fits = false;
                }
            },
            None => {
                fits = false;
            },
        }
        i += 1;
    }
    proof {
        assert(digits.take(i - start) =~= digits);
    }
    if fits {
        Some(value)
    } else {
        None
    }
}

fn finish_parsing(raw: &str, radix: u32) -> (result: Result<i64, MalformedNumber>)
    requires
        2 <= radix <= 16,
    ensures
        (match result {
            Ok(value) => literal_value(raw@, radix as int) == Some(value),
            Err(_) => literal_value(raw@, radix as int) is None,
        }),
{
    let written = without_underscores(raw);
    let negative = written.len() > 0 && written[0] == '-';
    let signed = written.len() > 0 && (written[0] == '-' || written[0] == '+');
    let start: usize = if signed {
        1
    } else {
        0
    };
    proof {
        assert(written@.skip(0) =~= written@);
    }
    if start == written.len() {
        return Err(MalformedNumber);
    }
    match magnitude(&written, start, radix) {
        Some(value) => if negative {
            Ok((0 - value as i128) as i64)
        } else if value < LARGEST_MAGNITUDE {
            Ok(value as i64)
        } else {
            Err(MalformedNumber)
        },
        None => Err(MalformedNumber),
    }
}

/// Reads an integer literal in base 10.
pub fn finish_parsing_int(raw: &str) -> (result: Result<i64, MalformedNumber>)
    ensures
        (match result {
            Ok(value) => literal_value(raw@, 10) == Some(value),
            Err(_) => literal_value(raw@, 10) is None,
        }),
{
    finish_parsing(raw, 10)
}

/// Reads an integer literal in another base.
pub fn finish_parsing_base(raw: &str, base: Base) -> (result: Result<i64, MalformedNumber>)
    ensures
        (match result {
            Ok(value) => literal_value(raw@, base_radix(base)) == Some(value),
            Err(_) => literal_value(raw@, base_radix(base)) is None,
        }),
{
    let radix: u32 = match base {
        Base::Hex => 16,
        Base::Octal => 8,
        Base::Binary => 2,
    };
    finish_parsing(raw, radix)
}

} // verus!
