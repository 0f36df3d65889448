//! The Coles catalogue.
use vstd::prelude::*;
use crate::document::{found_text, json_text, json_text_at, select_inner_html, selected_html};
use crate::errors::Error;

pub mod category;
pub mod http;
pub mod product;

verus! {

/// The script of the start page that holds what the other requests need.
pub open spec fn setup_selector() -> Seq<char> {
    "script#__NEXT_DATA__"@
}

pub open spec fn api_key_pointer() -> Seq<char> {
    "/runtimeConfig/BFF_API_SUBSCRIPTION_KEY"@
}

pub open spec fn build_id_pointer() -> Seq<char> {
    "/buildId"@
}

/// The key and the version, where the script is JSON and holds both as texts.
pub open spec fn setup_of_fields(
    api_key: Option<Option<Seq<char>>>,
    build_id: Option<Option<Seq<char>>>,
) -> Option<(Seq<char>, Seq<char>)> {
    match (api_key, build_id) {
        (Some(Some(api_key)), Some(Some(build_id))) => Some((api_key, build_id)),
        _ => None,
    }
}

/// The key and the version that a script holds.
pub open spec fn setup_of_script(script: Seq<char>) -> Option<(Seq<char>, Seq<char>)> {
    setup_of_fields(json_text(script, api_key_pointer()), json_text(script, build_id_pointer()))
}

/// The key and the version that the start page holds.
pub open spec fn setup_of_page(page: Seq<char>) -> Option<(Seq<char>, Seq<char>)> {
    match selected_html(page, setup_selector()) {
        Some(Some(script)) => setup_of_script(script),
        _ => None,
    }
}

/// The key for the store's API and the version of its site, given what was
/// found of each in the script: both must be there.
pub fn setup_from_fields(api_key: Option<Option<String>>, build_id: Option<Option<String>>) -> (r:
    Result<(String, String), Error>)
    ensures
        match r {
            Ok((key, version)) => setup_of_fields(found_text(api_key), found_text(build_id))
                == Some((key@, version@)),
            Err(error) => error is SerdeJson && setup_of_fields(
                found_text(api_key),
                found_text(build_id),
            ) is None,
        },
{
    let api_key = match api_key {
        Some(Some(api_key)) => api_key,
        Some(None) => {
            return Err(Error::SerdeJson("missing field `BFF_API_SUBSCRIPTION_KEY`".to_owned()));
        },
        None => {
            return Err(Error::SerdeJson("the script is no JSON".to_owned()));
        },
    };
    match build_id {
        Some(Some(build_id)) => Ok((api_key, build_id)),
        Some(None) => Err(Error::SerdeJson("missing field `buildId`".to_owned())),
        None => Err(Error::SerdeJson("the script is no JSON".to_owned())),
    }
}

/// Reads the key and the version out of the script.
pub fn setup_from_script(script: &str) -> (r: Result<(String, String), Error>)
    ensures
        match r {
            Ok((key, version)) => setup_of_script(script@) == Some((key@, version@)),
            Err(error) => error is SerdeJson && setup_of_script(script@) is None,
        },
{
    let api_key = json_text_at(script, "/runtimeConfig/BFF_API_SUBSCRIPTION_KEY");
    let build_id = json_text_at(script, "/buildId");
    setup_from_fields(api_key, build_id)
}

/// Reads, from the start page of the store, the key for its API and the
/// version of its site. Both come in a script of the page, as JSON.
pub fn get_setup_data(page: &str) -> (r: Result<(String, String), Error>)
    ensures
        match r {
            Ok((key, version)) => setup_of_page(page@) == Some((key@, version@)),
            Err(error) => setup_of_page(page@) is None && if selected_html(
                page@,
                setup_selector(),
            ) matches Some(Some(_)) {
                error is SerdeJson
            } else {
                error is Anyhow
            },
        },
{
    match select_inner_html(page, "script#__NEXT_DATA__") {
        Some(Some(script)) => setup_from_script(script.as_str()),
        Some(None) => Err(Error::Anyhow("couldn't find __NEXT_DATA__ script in HTML".to_owned())),
        None => Err(Error::Anyhow("the selector of the script was refused".to_owned())),
    }
}

} // verus!
