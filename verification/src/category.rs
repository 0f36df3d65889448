use vstd::prelude::*;
use crate::text::{decimal, decimal_text, same_text};

verus! {

/// The classification of a product.
#[derive(Debug, PartialEq, Eq, Clone, Copy, Structural)]
pub enum Category {
    FruitAndVeg(FruitAndVeg),
}

#[derive(Debug, PartialEq, Eq, Clone, Copy, Structural)]
pub enum FruitAndVeg {
    Fruit,
    Veg,
    SaladAndHerbs,
    NutsAndDriedFruits,
}

/// A category as a record carries it.
#[derive(Debug, PartialEq, Eq, Clone, Copy, Structural)]
pub struct CategoryCode {
    pub category: Category,
}

impl CategoryCode {
    pub fn from_category(category: Category) -> (r: Self)
        ensures
            r.category == category,
    {
        Self { category }
    }
}

/// Why a text is not a category code.
#[derive(Debug, PartialEq, Eq, Clone, Copy, Structural)]
pub enum CodeError {
    /// The text is not two bytes long; the variant holds its length.
    InvalidLength(usize),
    /// The text is two bytes long and stands for no category.
    UnknownCode,
}

impl CodeError {
    pub open spec fn spec_message(self) -> Seq<char> {
        match self {
            CodeError::InvalidLength(length) => "invalid length "@ + decimal_text(length as nat)
                + ", expected exactly two single digit numbers"@,
            CodeError::UnknownCode => "unknown category code"@,
        }
    }

    /// The error as a sentence.
    pub fn message(&self) -> (r: String)
        ensures
            r@ == self.spec_message(),
    {
        match self {
            CodeError::InvalidLength(length) => "invalid length ".to_owned().concat(
                decimal(*length as u64).as_str(),
            ).concat(", expected exactly two single digit numbers"),
            CodeError::UnknownCode => "unknown category code".to_owned(),
        }
    }
}

/// The two digits that stand for a category in a record.
pub open spec fn code_text(category: Category) -> Seq<char> {
    match category {
        Category::FruitAndVeg(FruitAndVeg::Fruit) => "00"@,
        Category::FruitAndVeg(FruitAndVeg::Veg) => "01"@,
        Category::FruitAndVeg(FruitAndVeg::SaladAndHerbs) => "02"@,
        Category::FruitAndVeg(FruitAndVeg::NutsAndDriedFruits) => "03"@,
    }
}

/// Writes a category as its two-digit code.
pub fn serialize(category: &Category) -> (r: &'static str)
    ensures
        r@ == code_text(*category),
{
    match category {
        Category::FruitAndVeg(sub) => match sub {
            FruitAndVeg::Fruit => "00",
            FruitAndVeg::Veg => "01",
            FruitAndVeg::SaladAndHerbs => "02",
            FruitAndVeg::NutsAndDriedFruits => "03",
        },
    }
}

/// Reads a two-digit code. A text of another length is refused with its
/// length, and a text of the right length that is no code is refused too.
pub fn deserialize(s: &str) -> (r: Result<Category, CodeError>)
    ensures
        match r {
            Ok(category) => s.len() == 2 && s@ == code_text(category),
            Err(CodeError::InvalidLength(length)) => length == s.len() && length != 2,
            Err(CodeError::UnknownCode) => s.len() == 2 && forall|c: Category|
                s@ != #[trigger] code_text(c),
        },
{
    if s.len() != 2 {
        return Err(CodeError::InvalidLength(s.len()));
    }
    if same_text(s, "00") {
        Ok(Category::FruitAndVeg(FruitAndVeg::Fruit))
    } else if same_text(s, "01") {
        Ok(Category::FruitAndVeg(FruitAndVeg::Veg))
    } else if same_text(s, "02") {
        Ok(Category::FruitAndVeg(FruitAndVeg::SaladAndHerbs))
    } else if same_text(s, "03") {
        Ok(Category::FruitAndVeg(FruitAndVeg::NutsAndDriedFruits))
    } else {
        Err(CodeError::UnknownCode)
    }
}

/// No two categories are written alike, so that reading what was written
/// gives the category back.
pub proof fn lemma_codes_differ(a: Category, b: Category)
    ensures
        code_text(a) == code_text(b) ==> a == b,
{
    reveal_strlit("00");
    reveal_strlit("01");
    reveal_strlit("02");
    reveal_strlit("03");
    if code_text(a) == code_text(b) {
        assert(code_text(a)[1] == code_text(b)[1]);
    }
}

} // verus!
