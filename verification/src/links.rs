//! The links file: one JSON object `{"link": ...}` per line, written by the
//! search and read back for fetching, through `serde_json`.
use vstd::prelude::*;
use crate::content::{processed_link, processed_link_spec};
use crate::error::ScrapeError;

verus! {

#[verifier::external_type_specification]
#[verifier::external_body]
pub struct ExJsonError(serde_json::Error);

/// The member of the links file's records that holds the link.
pub const LINK_KEY: &'static str = "link";

/// The member of a processed record that holds the page's text.
pub const CONTENT_KEY: &'static str = "content";

/// Name for what `serde_json` reads from a line: `None` where the line is not
/// JSON, else the value's member `key` where that is a string (`Some(None)`
/// where the value is no object, has no such member, or it is no string).
pub uninterp spec fn json_string_member(line: Seq<char>, key: Seq<char>) -> Option<Option<Seq<char>>>;

/// Name for the compact text `serde_json` writes for the object whose
/// members are `fields` (name and string value).
pub uninterp spec fn json_object_text(fields: Seq<(Seq<char>, Seq<char>)>) -> Seq<char>;

/// Name for the compact text `serde_json` writes for an array holding the one
/// object whose members are `fields` (name and string value).
pub uninterp spec fn json_object_array_text(fields: Seq<(Seq<char>, Seq<char>)>) -> Seq<char>;

/// No two fields have the same name.
pub open spec fn keys_distinct(fields: Seq<(Seq<char>, Seq<char>)>) -> bool {
    forall|i: int, j: int| 0 <= i < j < fields.len() ==> #[trigger] fields[i].0 != #[trigger] fields[j].0
}

/// Calls `serde_json::from_str::<serde_json::Value>(line)`, indexes the value
/// with `key` (which gives `Null`, not a panic, where there is no such
/// member) and calls `Value::as_str`. The contract claims that the outcome is
/// the named result; JSON syntax is left unstated.
#[verifier::external_body]
fn read_string_member(line: &str, key: &str) -> (r: Result<Option<String>, serde_json::Error>)
    ensures
        r matches Ok(l) ==> json_string_member(line@, key@) == Some(l.deep_view()),
        r is Err ==> json_string_member(line@, key@) is None,
{
    serde_json::from_str::<serde_json::Value>(line).map(|v| v[key].as_str().map(|s| s.to_string()))
}

/// Builds the `serde_json::Value` object with the members `fields` and turns
/// it into its compact text with `Value::to_string`. The contract claims the
/// named result, and two facts of `serde_json`'s behaviour: the text holds no
/// line break (control characters in strings are escaped), and where the
/// names are distinct, reading a member back gives its value.
#[verifier::external_body]
fn write_object(fields: &Vec<(String, String)>) -> (r: String)
    ensures
        r@ == json_object_text(fields.deep_view()),
        !r@.contains('\n'),
        keys_distinct(fields.deep_view()) ==> forall|i: int|
            0 <= i < fields.len() ==> json_string_member(r@, (#[trigger] fields.deep_view()[i]).0)
                == Some(Some(fields.deep_view()[i].1)),
{
    let object: serde_json::Map<String, serde_json::Value> = fields.iter().map(
        |(k, v)| (k.clone(), serde_json::Value::String(v.clone())),
    ).collect();
    serde_json::Value::Object(object).to_string()
}

/// Builds the `serde_json::Value` array holding the one object with the
/// members `fields` and turns it into its compact text with
/// `Value::to_string`. The contract claims the named result; JSON syntax is
/// left unstated.
#[verifier::external_body]
fn write_object_array(fields: &Vec<(String, String)>) -> (r: String)
    ensures
        r@ == json_object_array_text(fields.deep_view()),
{
    let object: serde_json::Map<String, serde_json::Value> = fields.iter().map(
        |(k, v)| (k.clone(), serde_json::Value::String(v.clone())),
    ).collect();
    serde_json::Value::Array(vec![serde_json::Value::Object(object)]).to_string()
}

/// The line of the links file that records `href`.
pub open spec fn json_link_line(href: Seq<char>) -> Seq<char> {
    json_object_text(seq![(LINK_KEY@, href)])
}

/// What a line of the links file holds under `"link"`.
pub open spec fn json_link_field(line: Seq<char>) -> Option<Option<Seq<char>>> {
    json_string_member(line, LINK_KEY@)
}

/// The link a line of the links file holds: an error where the line is not
/// JSON, `None` where it holds no string under `"link"`.
pub open spec fn link_of_line_spec(line: Seq<char>) -> Result<Option<Seq<char>>, ScrapeError> {
    match json_link_field(line) {
        Some(l) => Ok(l),
        None => Err(ScrapeError::InvalidJson),
    }
}

/// The link a line of the links file holds.
pub fn link_of_line(line: &str) -> (r: Result<Option<String>, ScrapeError>)
    ensures
        match r {
            Ok(l) => link_of_line_spec(line@) == Ok::<Option<Seq<char>>, ScrapeError>(l.deep_view()),
            Err(e) => link_of_line_spec(line@) == Err::<Option<Seq<char>>, ScrapeError>(e),
        },
{
    match read_string_member(line, LINK_KEY) {
        Ok(l) => Ok(l),
        Err(_) => Err(ScrapeError::InvalidJson),
    }
}

/// The line of the links file that records `href`. Reading it back gives
/// `href` again, and it holds no line break, so each record is one line.
pub fn link_line(href: &str) -> (r: String)
    ensures
        r@ == json_link_line(href@),
        !r@.contains('\n'),
        link_of_line_spec(r@) == Ok::<Option<Seq<char>>, ScrapeError>(Some(href@)),
{
    let fields: Vec<(String, String)> = vec![(LINK_KEY.to_owned(), href.to_owned())];
    assert(fields.deep_view() =~= seq![(LINK_KEY@, href@)]);
    let r = write_object(&fields);
    assert(keys_distinct(fields.deep_view()));
    assert(json_string_member(r@, fields.deep_view()[0].0) == Some(Some(fields.deep_view()[0].1)));
    r
}

/// The record of a processed page: its link and its text.
pub fn processed_record(link: &str, content: &str) -> (r: String)
    ensures
        r@ == json_object_text(seq![(LINK_KEY@, link@), (CONTENT_KEY@, content@)]),
        !r@.contains('\n'),
{
    let fields: Vec<(String, String)> = vec![
        (LINK_KEY.to_owned(), link.to_owned()),
        (CONTENT_KEY.to_owned(), content.to_owned()),
    ];
    assert(fields.deep_view() =~= seq![(LINK_KEY@, link@), (CONTENT_KEY@, content@)]);
    write_object(&fields)
}

/// The body of the database request that stores a page: an array holding
/// the one record with its id (the link), its data (the text) and the time
/// of the update.
pub fn upsert_body(id: &str, data: &str, updated: &str) -> (r: String)
    ensures
        r@ == json_object_array_text(seq![("id"@, id@), ("data"@, data@), ("updated"@, updated@)]),
{
    let fields: Vec<(String, String)> = vec![
        ("id".to_owned(), id.to_owned()),
        ("data".to_owned(), data.to_owned()),
        ("updated".to_owned(), updated.to_owned()),
    ];
    assert(fields.deep_view() =~= seq![("id"@, id@), ("data"@, data@), ("updated"@, updated@)]);
    write_object_array(&fields)
}

/// The link to fetch for a line of the links file: the line's link without
/// trailing `/apply`s; `None` where the line holds no link.
pub open spec fn link_to_fetch_spec(line: Seq<char>) -> Result<Option<Seq<char>>, ScrapeError> {
    match link_of_line_spec(line) {
        Ok(Some(l)) => Ok(Some(processed_link_spec(l))),
        Ok(None) => Ok(None),
        Err(e) => Err(e),
    }
}

/// The link to fetch for a line of the links file.
pub fn link_to_fetch(line: &str) -> (r: Result<Option<String>, ScrapeError>)
    ensures
        match r {
            Ok(l) => link_to_fetch_spec(line@) == Ok::<Option<Seq<char>>, ScrapeError>(l.deep_view()),
            Err(e) => link_to_fetch_spec(line@) == Err::<Option<Seq<char>>, ScrapeError>(e),
        },
{
    match link_of_line(line)? {
        Some(l) => Ok(Some(processed_link(l.as_str()))),
        None => Ok(None),
    }
}

/// Law: a line of the links file is fetched exactly as the link it holds
/// under `"link"`, without trailing `/apply`s (whatever else the link
/// holds); a line holding no string there gives no link, and a line that is
/// not JSON an error.
pub proof fn law_link_to_fetch(line: Seq<char>)
    ensures
        match json_string_member(line, "link"@) {
            Some(Some(l)) => link_to_fetch_spec(line) == Ok::<Option<Seq<char>>, ScrapeError>(
                Some(crate::text::trim_end_matches(l, "/apply"@)),
            ),
            Some(None) => link_to_fetch_spec(line) == Ok::<Option<Seq<char>>, ScrapeError>(None),
            None => link_to_fetch_spec(line) == Err::<Option<Seq<char>>, ScrapeError>(
                ScrapeError::InvalidJson,
            ),
        },
{
    assert(LINK_KEY@ == "link"@);
}

} // verus!
