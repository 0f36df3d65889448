//! Searching a text with the `regex` crate, and the lower case of a text.
use vstd::prelude::*;

verus! {

/// The lower-case form that `str::to_lowercase` gives a text.
pub uninterp spec fn lowercase(text: Seq<char>) -> Seq<char>;

/// What the `regex` crate finds in `text` for `pattern`: `None` where it
/// refuses the pattern; otherwise `Some` of its first match, as the texts of
/// the groups named `first` and `second` (each `None` where the group took no
/// part), or of `None` where nothing matches.
pub uninterp spec fn first_match(
    pattern: Seq<char>,
    text: Seq<char>,
    first: Seq<char>,
    second: Seq<char>,
) -> Option<Option<(Option<Seq<char>>, Option<Seq<char>>)>>;

/// The two groups of a match as texts.
pub open spec fn groups_text(found: Option<(Option<String>, Option<String>)>) -> Option<
    (Option<Seq<char>>, Option<Seq<char>>),
> {
    match found {
        Some((first, second)) => Some(
            (
                match first {
                    Some(text) => Some(text@),
                    None => None,
                },
                match second {
                    Some(text) => Some(text@),
                    None => None,
                },
            ),
        ),
        None => None,
    }
}

/// Calls `str::to_lowercase`. Trusted: the result is `lowercase` of the text.
#[verifier::external_body]
pub(crate) fn to_lowercase(text: &str) -> (r: String)
    ensures
        r@ == lowercase(text@),
{
    text.to_lowercase()
}

/// Compiles `pattern` with `Regex::new`, searches `text` with
/// `Regex::captures` and reads two groups with `Captures::name`. Trusted: what
/// comes back is `first_match` of the arguments, `None` standing for a
/// pattern that the crate refuses.
#[verifier::external_body]
pub(crate) fn find_groups(pattern: &str, text: &str, first: &str, second: &str) -> (r: Option<
    Option<(Option<String>, Option<String>)>,
>)
    ensures
        match r {
            Some(found) => first_match(pattern@, text@, first@, second@) == Some(
                groups_text(found),
            ),
            None => first_match(pattern@, text@, first@, second@) is None,
        },
{
    match regex::Regex::new(pattern) {
        Ok(regex) => Some(
            regex.captures(text).map(
                |found|
                    (
                        found.name(first).map(|group| group.as_str().to_owned()),
                        found.name(second).map(|group| group.as_str().to_owned()),
                    ),
            ),
        ),
        Err(_) => None,
    }
}

} // verus!
