//! Sizes as stores print them ("150g", "10 pack"), read as a quantity of a unit.
use vstd::prelude::*;
use crate::errors::Error;
use crate::pattern::{find_groups, first_match, groups_text, lowercase, to_lowercase};
use crate::text::{chars_of, same_text};

verus! {

/// The unit in which a product's quantity is counted.
#[derive(Debug, PartialEq, Eq, Clone, Copy, Structural)]
pub enum Unit {
    Each,
    Grams,
    Millilitre,
    Centimetre,
}

/// An amount of a unit, counted in thousandths so that a milligram is a whole
/// number of them.
#[derive(Debug, PartialEq, Eq, Clone, Copy, Structural)]
pub struct Quantity {
    pub thousandths: u64,
}

/// A number, some digits, then a unit in lower-case letters, with at most one
/// space between them.
pub open spec fn size_pattern() -> Seq<char> {
    "(?P<quantity>[0-9]+) ?(?P<unit>[a-z]+)"@
}

/// Whether the word counts single things.
pub open spec fn is_each_word(word: Seq<char>) -> bool {
    ||| word == "ea"@
    ||| word == "each"@
    ||| word == "pk"@
    ||| word == "pack"@
    ||| word == "bunch"@
    ||| word == "sheets"@
    ||| word == "sachets"@
    ||| word == "capsules"@
    ||| word == "ss"@
    ||| word == "set"@
    ||| word == "pair"@
    ||| word == "pairs"@
    ||| word == "piece"@
    ||| word == "tablets"@
    ||| word == "rolls"@
}

/// What one of a unit word amounts to: so many thousandths of a canonical
/// unit. A kilogram is a million thousandths of a gram, a milligram one.
pub open spec fn unit_factor(word: Seq<char>) -> Option<(nat, Unit)> {
    if word == "g"@ {
        Some((1_000, Unit::Grams))
    } else if word == "kg"@ {
        Some((1_000_000, Unit::Grams))
    } else if word == "mg"@ {
        Some((1, Unit::Grams))
    } else if word == "ml"@ {
        Some((1_000, Unit::Millilitre))
    } else if word == "l"@ {
        Some((1_000_000, Unit::Millilitre))
    } else if word == "cm"@ {
        Some((1_000, Unit::Centimetre))
    } else if word == "m"@ || word == "metre"@ {
        Some((100_000, Unit::Centimetre))
    } else if word == "dozen"@ {
        Some((12_000, Unit::Each))
    } else if is_each_word(word) {
        Some((1_000, Unit::Each))
    } else {
        None
    }
}

/// The value of a decimal digit.
pub open spec fn digit_value(c: char) -> Option<nat> {
    if '0' <= c <= '9' {
        Some((c as nat - '0' as nat) as nat)
    } else {
        None
    }
}

/// The number that a run of decimal digits writes; `None` for the empty
/// text and for a text with anything but digits in it.
pub open spec fn decimal_value(digits: Seq<char>) -> Option<nat>
    decreases digits.len(),
{
    if digits.len() == 0 {
        None
    } else {
        match digit_value(digits.last()) {
            None => None,
            Some(digit) => if digits.len() == 1 {
                Some(digit)
            } else {
                match decimal_value(digits.drop_last()) {
                    None => None,
                    Some(value) => Some(value * 10 + digit),
                }
            },
        }
    }
}

/// The size that a number and a unit word stand for, in thousandths of the
/// canonical unit.
pub open spec fn size_of(number: Seq<char>, word: Seq<char>) -> Option<(nat, Unit)> {
    match (decimal_value(number), unit_factor(word)) {
        (Some(value), Some((factor, unit))) => Some((value * factor, unit)),
        _ => None,
    }
}

fn is_each(word: &str) -> (r: bool)
    ensures
        r == is_each_word(word@),
{
    same_text(word, "ea") || same_text(word, "each") || same_text(word, "pk") || same_text(
        word,
        "pack",
    ) || same_text(word, "bunch") || same_text(word, "sheets") || same_text(word, "sachets")
        || same_text(word, "capsules") || same_text(word, "ss") || same_text(word, "set")
        || same_text(word, "pair") || same_text(word, "pairs") || same_text(word, "piece")
        || same_text(word, "tablets") || same_text(word, "rolls")
}

/// Looks a unit word up. An unknown word is a conversion error.
pub fn normalise_unit(unit: &str) -> (r: Result<(u64, Unit), Error>)
    ensures
        match r {
            Ok((factor, canonical)) => unit_factor(unit@) == Some((factor as nat, canonical)),
            Err(error) => unit_factor(unit@) is None && error is ProductConversion,
        },
{
    if same_text(unit, "g") {
        Ok((1_000, Unit::Grams))
    } else if same_text(unit, "kg") {
        Ok((1_000_000, Unit::Grams))
    } else if same_text(unit, "mg") {
        Ok((1, Unit::Grams))
    } else if same_text(unit, "ml") {
        Ok((1_000, Unit::Millilitre))
    } else if same_text(unit, "l") {
        Ok((1_000_000, Unit::Millilitre))
    } else if same_text(unit, "cm") {
        Ok((1_000, Unit::Centimetre))
    } else if same_text(unit, "m") || same_text(unit, "metre") {
        Ok((100_000, Unit::Centimetre))
    } else if same_text(unit, "dozen") {
        Ok((12_000, Unit::Each))
    } else if is_each(unit) {
        Ok((1_000, Unit::Each))
    } else {
        Err(Error::ProductConversion("unknown unit: ".to_owned().concat(unit)))
    }
}

fn digit_of(c: char) -> (r: Option<u64>)
    ensures
        match r {
            Some(digit) => digit_value(c) == Some(digit as nat) && digit <= 9,
            None => digit_value(c) is None,
        },
{
    match c {
        '0' => Some(0),
        '1' => Some(1),
        '2' => Some(2),
        '3' => Some(3),
        '4' => Some(4),
        '5' => Some(5),
        '6' => Some(6),
        '7' => Some(7),
        '8' => Some(8),
        '9' => Some(9),
        _ => None,
    }
}

proof fn lemma_decimal_prefix(digits: Seq<char>, n: int)
    requires
        0 < n <= digits.len(),
        decimal_value(digits) is Some,
    ensures
        decimal_value(digits.take(n)) is Some,
        decimal_value(digits.take(n)).unwrap() <= decimal_value(digits).unwrap(),
    decreases digits.len(),
{
    if n == digits.len() {
        assert(digits.take(n) =~= digits);
    } else {
        assert(digits.drop_last().take(n) =~= digits.take(n));
        lemma_decimal_prefix(digits.drop_last(), n);
    }
}

/// Reads a run of decimal digits. `None` for a text that is no such run, and
/// for a number too large for 64 bits.
pub fn parse_decimal(digits: &str) -> (r: Option<u64>)
    ensures
        match r {
            Some(value) => decimal_value(digits@) == Some(value as nat),
            None => match decimal_value(digits@) {
                Some(value) => value > u64::MAX,
                None => true,
            },
        },
{
    let chars = chars_of(digits);
    if chars.len() == 0 {
        return None;
    }
    let mut value: u64 = 0;
    let mut i: usize = 0;
    while i < chars.len()
        invariant
            chars@ == digits@,
            i <= chars.len(),
            i == 0 ==> value == 0,
            i > 0 ==> decimal_value(chars@.take(i as int)) == Some(value as nat),
        decreases chars.len() - i,
    {
        proof {
            assert(chars@.take(i + 1).drop_last() =~= chars@.take(i as int));
            assert(chars@.take(i + 1).last() == chars[i as int]);
        }
        let digit = match digit_of(chars[i]) {
            Some(digit) => digit,
            None => {
                proof {
                    if decimal_value(chars@) is Some {
                        lemma_decimal_prefix(chars@, i + 1);
                    }
                }
                return None;
            },
        };
        if value > (u64::MAX - digit) / 10 {
            proof {
                if decimal_value(chars@) is Some {
                    lemma_decimal_prefix(chars@, i + 1);
                }
            }
            return None;
        }
        value = value * 10 + digit;
        i += 1;
    }
    proof {
        assert(chars@.take(chars.len() as int) =~= chars@);
    }
    Some(value)
}

/// The size as a `Quantity`, where there is one and it is within range.
pub open spec fn in_range(size: Option<(nat, Unit)>) -> Option<(Quantity, Unit)> {
    match size {
        Some((thousandths, unit)) => if thousandths <= u64::MAX {
            Some((Quantity { thousandths: thousandths as u64 }, unit))
        } else {
            None
        },
        None => None,
    }
}

/// The size that a number and a unit word stand for. A text that is no
/// number, an unknown unit, and a size beyond the range of a `Quantity` are
/// conversion errors.
pub fn size_from_groups(number: &str, word: &str) -> (r: Result<(Quantity, Unit), Error>)
    ensures
        match r {
            Ok(size) => in_range(size_of(number@, word@)) == Some(size),
            Err(error) => error is ProductConversion && in_range(size_of(number@, word@)) is None,
        },
{
    let value = match parse_decimal(number) {
        Some(value) => value,
        None => {
            proof {
                if size_of(number@, word@) is Some {
                    let v = decimal_value(number@).unwrap();
                    let f = unit_factor(word@).unwrap().0;
                    assert(v * f >= v) by (nonlinear_arith)
                        requires
                            v >= 0,
                            f >= 1,
                    ;
                }
            }
            return Err(
                Error::ProductConversion("can't read quantity: ".to_owned().concat(number)),
            );
        },
    };
    let (factor, unit) = normalise_unit(word)?;
    if value > u64::MAX / factor {
        proof {
            assert(value * factor > u64::MAX) by (nonlinear_arith)
                requires
                    value > u64::MAX as int / factor as int,
                    factor >= 1,
            ;
        }
        return Err(Error::ProductConversion("quantity out of range: ".to_owned().concat(number)));
    }
    proof {
        assert(value * factor <= u64::MAX) by (nonlinear_arith)
            requires
                value <= u64::MAX as int / factor as int,
                factor >= 1,
        ;
    }
    Ok((Quantity { thousandths: value * factor }, unit))
}

/// The outcome of reading a size, given what the pattern found in it.
pub open spec fn size_of_match(
    found: Option<Option<(Option<Seq<char>>, Option<Seq<char>>)>>,
) -> Option<(nat, Unit)> {
    match found {
        Some(Some((Some(number), Some(word)))) => size_of(number, word),
        _ => None,
    }
}

/// Reads a size once the pattern has been searched for: the groups found
/// give the size; no match, or a match without one of the groups, is a
/// conversion error.
pub fn size_from_match(found: Option<(Option<String>, Option<String>)>) -> (r: Result<
    (Quantity, Unit),
    Error,
>)
    ensures
        match r {
            Ok(size) => in_range(size_of_match(Some(groups_text(found)))) == Some(size),
            Err(error) => error is ProductConversion && in_range(
                size_of_match(Some(groups_text(found))),
            ) is None,
        },
{
    match found {
        None => Err(Error::conversion("regex didn't match")),
        Some((None, _)) => Err(Error::conversion("missing field quantity")),
        Some((Some(_), None)) => Err(Error::conversion("missing field unit")),
        Some((Some(number), Some(word))) => size_from_groups(number.as_str(), word.as_str()),
    }
}

/// The size that a text states: what the size pattern finds in its lower-case
/// form, as a `Quantity` of a unit.
pub open spec fn parsed_size(size: Seq<char>) -> Option<(Quantity, Unit)> {
    in_range(size_of_match(first_match(size_pattern(), lowercase(size), "quantity"@, "unit"@)))
}

/// Reads a size such as "150g" or "10 pack": the text is put in lower case,
/// and the first number in it that a unit word follows, with at most one
/// space between, is multiplied by what the word amounts to.
pub fn parse_str_unit(size: &str) -> (r: Result<(Quantity, Unit), Error>)
    ensures
        match r {
            Ok(parsed) => parsed_size(size@) == Some(parsed),
            Err(error) => error is ProductConversion && parsed_size(size@) is None,
        },
{
    let size = to_lowercase(size);
    match find_groups(
        "(?P<quantity>[0-9]+) ?(?P<unit>[a-z]+)",
        size.as_str(),
        "quantity",
        "unit",
    ) {
        Some(found) => size_from_match(found),
        None => Err(Error::conversion("the size pattern is not a regular expression")),
    }
}

} // verus!
