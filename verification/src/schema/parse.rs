//! Reading the OpenAPI document.

use vstd::prelude::*;

use super::yaml::{fits_json, read_yaml, yaml_of_bytes, yaml_result, Yaml, YamlView};
use super::SchemaError;
use crate::json::{json_of_value, Json, JsonView};

verus! {

broadcast use vstd::string::group_string_axioms;

/// An OpenAPI document, as the JSON value that its typed form is written as.
#[derive(Debug)]
pub struct OpenApi {
    root: Json,
}

impl View for OpenApi {
    type V = JsonView;

    closed spec fn view(&self) -> JsonView {
        self.root@
    }
}

/// What `serde_yaml` and `openapiv3` make of a sequence of bytes: the document
/// as the JSON value that `serde_json` writes for it, or the text of the error.
pub uninterp spec fn openapi_of_bytes(bytes: Seq<u8>) -> Result<JsonView, Seq<char>>;

/// What the outcome of reading a document is.
pub open spec fn read_result(r: Result<OpenApi, String>) -> Result<JsonView, Seq<char>> {
    match r {
        Ok(d) => Ok(d@),
        Err(e) => Err(e@),
    }
}

/// Calls `serde_yaml::from_slice` for an `openapiv3::OpenAPI` and, on that,
/// `serde_json::to_value`: the document that the bytes denote, as a JSON value
/// whose members keep their order, or the text of the error; a function of the
/// bytes alone. Where an item of the document cannot be read, `openapiv3` reads
/// it once more out of a JSON value to find the reason, and panics when that
/// works. The two readings differ on a key that stands twice, on a number that
/// is not finite and on a key that `serde_json` keeps for itself: the bytes must
/// hold none of these.
#[verifier::external_body]
fn read_document(bytes: &[u8]) -> (r: Result<OpenApi, String>)
    requires
        yaml_of_bytes(bytes@) matches Ok(y) && fits_json(y),
    ensures
        read_result(r) == openapi_of_bytes(bytes@),
{
    let document: openapiv3::OpenAPI = serde_yaml::from_slice(bytes).map_err(|e| e.to_string())?;
    let value = serde_json::to_value(&document).map_err(|e| e.to_string())?;
    Ok(OpenApi { root: json_of_value(value) })
}

/// The version text of a document.
pub open spec fn version_text(j: JsonView) -> Seq<char> {
    match j.get("openapi"@) {
        Some(JsonView::Text(s)) => s,
        _ => Seq::empty(),
    }
}

/// Whether a version text begins with `3.`.
pub open spec fn is_version_3(s: Seq<char>) -> bool {
    s.len() >= 2 && s[0] == '3' && s[1] == '.'
}

/// What reading a document comes to.
pub enum ParseView {
    Document(JsonView),
    /// The bytes are no OpenAPI document; the text says why.
    Unreadable(Seq<char>),
    /// The document is of another version than 3.
    NotOas3(Seq<char>),
}

/// What reading a document comes to.
pub open spec fn parse_outcome(read: Result<JsonView, Seq<char>>) -> ParseView {
    match read {
        Err(e) => ParseView::Unreadable(e),
        Ok(j) => if is_version_3(version_text(j)) {
            ParseView::Document(j)
        } else {
            ParseView::NotOas3(version_text(j))
        },
    }
}

/// Whether `r` is the result for what reading a document came to.
pub open spec fn is_parse_result(r: Result<OpenApi, SchemaError>, v: ParseView) -> bool {
    match v {
        ParseView::Document(j) => r matches Ok(d) && d@ == j,
        ParseView::Unreadable(e) => r matches Err(SchemaError::Yaml(m)) && m@ == e,
        ParseView::NotOas3(s) => r matches Err(SchemaError::NotOas3 { found }) && found@ == s,
    }
}

/// Accepts a document of version 3 and no other.
pub fn require_version_3(read: Result<OpenApi, String>) -> (r: Result<OpenApi, SchemaError>)
    ensures
        is_parse_result(r, parse_outcome(read_result(read))),
{
    let document: OpenApi = match read {
        Ok(d) => d,
        Err(e) => return Err(SchemaError::Yaml(e)),
    };
    let version: String = match document.root.get("openapi") {
        Some(Json::Text(s)) => s.clone(),
        _ => String::new(),
    };
    let cs: Vec<char> = crate::text::chars_of(version.as_str());
    if cs.len() >= 2 && cs[0] == '3' && cs[1] == '.' {
        Ok(document)
    } else {
        Err(SchemaError::NotOas3 { found: version })
    }
}

/// The message for a document with a value that JSON has no place for.
pub const NO_JSON: &'static str = "a number that is not finite, or a reserved key";

/// What is wrong with a document that cannot be read as one, whatever it
/// describes: it is no YAML, or it holds what no JSON value can hold.
pub open spec fn yaml_fault(read: Result<YamlView, Seq<char>>) -> Option<Seq<char>> {
    match read {
        Err(e) => Some(e),
        Ok(y) => if fits_json(y) {
            None
        } else {
            Some(NO_JSON@)
        },
    }
}

/// Accepts YAML that a JSON value can hold as well, and says of any other what
/// is wrong.
pub fn require_json(read: Result<Yaml, String>) -> (r: Result<(), SchemaError>)
    ensures
        match yaml_fault(yaml_result(read)) {
            Some(e) => r matches Err(SchemaError::Yaml(m)) && m@ == e,
            None => r is Ok,
        },
{
    match read {
        Ok(y) => if y.fits_json() {
            Ok(())
        } else {
            Err(SchemaError::Yaml(NO_JSON.to_owned()))
        },
        Err(e) => Err(SchemaError::Yaml(e)),
    }
}

/// What reading bytes as a document comes to.
pub open spec fn bytes_outcome(bytes: Seq<u8>) -> ParseView {
    match yaml_fault(yaml_of_bytes(bytes)) {
        Some(e) => ParseView::Unreadable(e),
        None => parse_outcome(openapi_of_bytes(bytes)),
    }
}

/// Reads an OpenAPI document of version 3.
pub fn parse_bytes(bytes: &[u8]) -> (r: Result<OpenApi, SchemaError>)
    ensures
        is_parse_result(r, bytes_outcome(bytes@)),
{
    match require_json(read_yaml(bytes)) {
        Ok(_) => require_version_3(read_document(bytes)),
        Err(e) => Err(e),
    }
}

impl OpenApi {
    /// A document given by its JSON value.
    pub fn from_json(root: Json) -> (r: OpenApi)
        ensures
            r@ == root@,
    {
        OpenApi { root }
    }

    /// The JSON value of the document.
    pub fn as_json(&self) -> (r: &Json)
        ensures
            r@ == self@,
    {
        &self.root
    }
}

/// A document is accepted where its version text begins with `3.`, and refused with
/// that text otherwise.
pub proof fn only_version_3_is_accepted(j: JsonView, version: Seq<char>)
    requires
        j.get("openapi"@) == Some(JsonView::Text(version)),
    ensures
        version.len() >= 2 && version[0] == '3' && version[1] == '.' ==> parse_outcome(
            Ok::<JsonView, Seq<char>>(j),
        ) == ParseView::Document(j),
        !(version.len() >= 2 && version[0] == '3' && version[1] == '.') ==> parse_outcome(
            Ok::<JsonView, Seq<char>>(j),
        ) == ParseView::NotOas3(version),
{
}

/// Where reading the bytes works and they hold nothing but what JSON can hold, the
/// document is what was read; where it does not work, the reader's message tells
/// why.
pub proof fn documents_are_read(bytes: Seq<u8>, y: YamlView)
    requires
        yaml_of_bytes(bytes) == Ok::<YamlView, Seq<char>>(y),
        fits_json(y),
    ensures
        openapi_of_bytes(bytes) matches Err(e) ==> bytes_outcome(bytes) == ParseView::Unreadable(e),
        openapi_of_bytes(bytes) matches Ok(j) ==> bytes_outcome(bytes) == ParseView::Document(j)
            || bytes_outcome(bytes) is NotOas3,
{
}

} // verus!
