use vstd::prelude::*;

verus! {

/// What can go wrong while a store's data becomes canonical records.
#[derive(Debug)]
pub enum Error {
    /// A text was not the JSON that was expected; the variant holds the reason.
    SerdeJson(String),
    /// An item could not be made into a snapshot, or too many of a batch could not.
    ProductConversion(String),
    /// The item is an advertisement.
    AdResult,
    /// Any other failure, with its description.
    Anyhow(String),
}

impl Error {
    pub open spec fn spec_message(self) -> Seq<char> {
        match self {
            Error::SerdeJson(reason) => "Serde error: "@ + reason@,
            Error::ProductConversion(reason) => "Conversion error: "@ + reason@,
            Error::AdResult => "Ad result"@,
            Error::Anyhow(reason) => "Anyhow error: "@ + reason@,
        }
    }

    /// The error as a sentence.
    pub fn message(&self) -> (r: String)
        ensures
            r@ == self.spec_message(),
    {
        match self {
            Error::SerdeJson(reason) => "Serde error: ".to_owned().concat(reason.as_str()),
            Error::ProductConversion(reason) => "Conversion error: ".to_owned().concat(
                reason.as_str(),
            ),
            Error::AdResult => "Ad result".to_owned(),
            Error::Anyhow(reason) => "Anyhow error: ".to_owned().concat(reason.as_str()),
        }
    }

    /// A conversion error with the given reason.
    pub fn conversion(reason: &str) -> (r: Error)
        ensures
            r matches Error::ProductConversion(text) && text@ == reason@,
    {
        Error::ProductConversion(reason.to_owned())
    }
}

} // verus!
