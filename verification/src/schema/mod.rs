//! The OpenAPI document: where it comes from, how it is read, and what it
//! counts.

pub mod cache;
pub mod fetch;
pub mod parse;
pub mod yaml;

use vstd::prelude::*;

use self::cache::{sha256_hex, sha256_text};
use self::parse::{bytes_outcome, parse_bytes, OpenApi, ParseView};
use crate::json::{array_view, members_view, Json, JsonView};
use crate::text::{has_prefix, quote, quoted, starts_with};
use crate::tool_registry::builder::{
    list_operations, operation_views, operations, parameters_of, path_entries, paths_of,
    OperationRef, OperationView,
};

verus! {

broadcast use vstd::string::group_string_axioms;

/// Where the document comes from.
#[derive(Debug, PartialEq, Eq)]
pub enum SchemaSource {
    Url(String),
    File(String),
}

impl Clone for SchemaSource {
    fn clone(&self) -> (r: SchemaSource)
        ensures
            match self {
                SchemaSource::Url(u) => r matches SchemaSource::Url(v) && v@ == u@,
                SchemaSource::File(f) => r matches SchemaSource::File(g) && g@ == f@,
            },
    {
        match self {
            SchemaSource::Url(u) => SchemaSource::Url(u.clone()),
            SchemaSource::File(f) => SchemaSource::File(f.clone()),
        }
    }
}

/// The document that is used unless another one is named.
pub const DEFAULT_SCHEMA_URL: &'static str = "https://developer.allegro.pl/swagger.yaml";

impl Default for SchemaSource {
    fn default() -> (r: SchemaSource)
        ensures
            r matches SchemaSource::Url(u) && u@ == DEFAULT_SCHEMA_URL@,
    {
        SchemaSource::Url(DEFAULT_SCHEMA_URL.to_owned())
    }
}

/// What can go wrong on the way to a document.
#[derive(Debug)]
pub enum SchemaError {
    Fetch(String),
    Io(String),
    Yaml(String),
    NotOas3 { found: String },
    NoCacheDir,
}

impl SchemaError {
    /// The message shown for the error.
    pub open spec fn text(self) -> Seq<char> {
        match self {
            SchemaError::Fetch(e) => "HTTP fetch failed: "@ + e@,
            SchemaError::Io(e) => "I/O error: "@ + e@,
            SchemaError::Yaml(e) => "YAML parse error: "@ + e@,
            SchemaError::NotOas3 { found } =>
                "Not an OpenAPI 3.x document (found openapi field: "@ + quoted(found@) + ")"@,
            SchemaError::NoCacheDir => "Cache directory unavailable"@,
        }
    }

    /// The message shown for the error.
    pub fn message(&self) -> (r: String)
        ensures
            r@ == self.text(),
    {
        match self {
            SchemaError::Fetch(e) => "HTTP fetch failed: ".to_owned().concat(e.as_str()),
            SchemaError::Io(e) => "I/O error: ".to_owned().concat(e.as_str()),
            SchemaError::Yaml(e) => "YAML parse error: ".to_owned().concat(e.as_str()),
            SchemaError::NotOas3 { found } =>
                "Not an OpenAPI 3.x document (found openapi field: ".to_owned().concat(
                quote(found.as_str()).as_str()).concat(")"),
            SchemaError::NoCacheDir => "Cache directory unavailable".to_owned(),
        }
    }
}

/// What a document counts.
#[derive(Debug)]
pub struct SchemaStats {
    pub path_count: usize,
    pub operation_count: usize,
    pub parameter_count: usize,
    /// The checksum of the raw bytes.
    pub sha256: String,
}

/// How many of the entries are paths.
pub open spec fn count_paths(ms: Seq<(Seq<char>, JsonView)>) -> nat
    decreases ms.len(),
{
    if ms.len() == 0 {
        0
    } else {
        count_paths(ms.drop_last()) + if has_prefix(ms.last().0, "/"@) {
            1nat
        } else {
            0nat
        }
    }
}

/// How many parameters the operations have together.
pub open spec fn count_parameters(ops: Seq<OperationView>) -> nat
    decreases ops.len(),
{
    if ops.len() == 0 {
        0
    } else {
        count_parameters(ops.drop_last()) + parameters_of(ops.last().operation).len()
    }
}

/// A number, or the largest machine number when it is larger.
pub open spec fn at_most_max(n: nat) -> nat {
    if n <= usize::MAX {
        n
    } else {
        usize::MAX as nat
    }
}

/// Counts a document, of which `raw` are the bytes. Paths that are references
/// count as paths; their operations do not count.
pub fn compute_stats(api: &OpenApi, raw: &[u8]) -> (r: SchemaStats)
    ensures
        r.path_count == count_paths(path_entries(api@)),
        r.operation_count == operations(api@).len(),
        r.parameter_count == at_most_max(count_parameters(operations(api@))),
        r.sha256@ == sha256_text(raw@),
{
    let ops: Vec<OperationRef> = list_operations(api);
    let ghost all = operation_views(ops@);
    let mut parameter_count: usize = 0;
    let mut i: usize = 0;
    assert(all.take(0) =~= Seq::<OperationView>::empty());
    while i < ops.len()
        invariant
            all == operation_views(ops@),
            i <= ops@.len(),
            parameter_count == at_most_max(count_parameters(all.take(i as int))),
        decreases ops@.len() - i,
    {
        proof {
            assert(all.take(i as int + 1).drop_last() =~= all.take(i as int));
            assert(all.take(i as int + 1).last() == ops@[i as int]@);
        }
        if let Some(Json::Array(items)) = ops[i].operation.get("parameters") {
            proof {
                array_view(*items);
            }
            parameter_count = parameter_count.saturating_add(items.len());
        }
        i += 1;
    }
    assert(all.take(all.len() as int) =~= all);
    let mut path_count: usize = 0;
    match paths_of(api) {
        Some(paths) => {
            let ghost entries = members_view(paths@);
            let mut k: usize = 0;
            assert(entries.take(0) =~= Seq::<(Seq<char>, JsonView)>::empty());
            while k < paths.len()
                invariant
                    entries == members_view(paths@),
                    k <= paths@.len(),
                    path_count == count_paths(entries.take(k as int)),
                    path_count <= k,
                decreases paths@.len() - k,
            {
                proof {
                    assert(entries.take(k as int + 1).drop_last() =~= entries.take(k as int));
                    assert(entries.take(k as int + 1).last() == entries[k as int]);
                }
                if starts_with(paths[k].0.as_str(), "/") {
                    path_count += 1;
                }
                k += 1;
            }
            assert(entries.take(entries.len() as int) =~= entries);
        },
        None => {},
    }
    SchemaStats {
        path_count,
        operation_count: ops.len(),
        parameter_count,
        sha256: sha256_hex(raw),
    }
}

/// How to begin loading a document.
#[derive(Debug)]
pub enum LoadStart {
    ReadFile(String),
    Fetch(String),
}

/// Whether `r` is how to begin loading a document from the source.
pub open spec fn starts_load(source: SchemaSource, r: LoadStart) -> bool {
    match source {
        SchemaSource::File(path) => r matches LoadStart::ReadFile(p) && p@ == path@,
        SchemaSource::Url(url) => r matches LoadStart::Fetch(u) && u@ == url@,
    }
}

/// How to begin loading a document: read the file, or fetch the URL.
pub fn begin_load(source: &SchemaSource) -> (r: LoadStart)
    ensures
        starts_load(*source, r),
{
    match source {
        SchemaSource::File(path) => LoadStart::ReadFile(path.clone()),
        SchemaSource::Url(url) => LoadStart::Fetch(url.clone()),
    }
}

/// How to go on after a fetch.
#[derive(Debug)]
pub enum AfterFetch {
    /// Write these bytes to the cache, whether or not that works, and use
    /// them.
    CacheAndUse(Vec<u8>),
    /// Use what the cache holds.
    ReadCache,
}

/// Whether `r` is how to go on after a fetch.
pub open spec fn follows_fetch(fetched: Result<Vec<u8>, SchemaError>, r: AfterFetch) -> bool {
    match fetched {
        Ok(bytes) => r == AfterFetch::CacheAndUse(bytes),
        Err(_) => r is ReadCache,
    }
}

/// How to go on after a fetch: what it brought is kept for later, and what was
/// kept stands in for it when it failed.
pub fn after_fetch(fetched: Result<Vec<u8>, SchemaError>) -> (r: AfterFetch)
    ensures
        follows_fetch(fetched, r),
{
    match fetched {
        Ok(bytes) => AfterFetch::CacheAndUse(bytes),
        Err(_) => AfterFetch::ReadCache,
    }
}

/// Whether `r` is the end of loading a document from the bytes.
pub open spec fn ends_load(bytes: Seq<u8>, r: Result<(OpenApi, Vec<u8>), SchemaError>) -> bool {
    match bytes_outcome(bytes) {
        ParseView::Document(j) => r matches Ok(pair) && pair.0@ == j && pair.1@ == bytes,
        ParseView::Unreadable(e) => r matches Err(SchemaError::Yaml(m)) && m@ == e,
        ParseView::NotOas3(s) => r matches Err(SchemaError::NotOas3 { found }) && found@ == s,
    }
}

/// Finishes loading: reads the document and hands it out with its bytes.
pub fn finish_load(bytes: Vec<u8>) -> (r: Result<(OpenApi, Vec<u8>), SchemaError>)
    ensures
        ends_load(bytes@, r),
{
    match parse_bytes(bytes.as_slice()) {
        Ok(api) => Ok((api, bytes)),
        Err(e) => Err(e),
    }
}

/// Every path counts once, and nothing else does: one more entry adds one where its
/// name begins with a slash.
pub proof fn paths_are_counted(ms: Seq<(Seq<char>, JsonView)>, m: (Seq<char>, JsonView))
    ensures
        count_paths(Seq::empty()) == 0,
        m.0.len() > 0 && m.0[0] == '/' ==> count_paths(ms.push(m)) == count_paths(ms) + 1,
        !(m.0.len() > 0 && m.0[0] == '/') ==> count_paths(ms.push(m)) == count_paths(ms),
{
    reveal_strlit("/");
    assert("/"@ =~= seq!['/']);
    assert(ms.push(m).drop_last() =~= ms);
    if m.0.len() > 0 {
        assert(m.0.take(1) =~= seq![m.0[0]]);
        assert(m.0.take(1)[0] == m.0[0]);
        assert(seq!['/'][0] == '/');
    }
}

/// Every parameter of every operation counts once.
pub proof fn parameters_are_counted(
    ops: Seq<OperationView>,
    op: OperationView,
    items: Seq<JsonView>,
)
    ensures
        count_parameters(Seq::empty()) == 0,
        op.operation.get("parameters"@) == Some(JsonView::Array(items)) ==> count_parameters(
            ops.push(op),
        ) == count_parameters(ops) + items.len(),
        op.operation.get("parameters"@) is None ==> count_parameters(ops.push(op))
            == count_parameters(ops),
{
    assert(ops.push(op).drop_last() =~= ops);
}

/// A file is never fetched and an address is never read as a file; what a fetch
/// brought is used as it came, and the cache stands in exactly where it brought
/// nothing.
pub proof fn where_the_bytes_come_from(
    source: SchemaSource,
    start: LoadStart,
    fetched: Result<Vec<u8>, SchemaError>,
    next: AfterFetch,
)
    requires
        starts_load(source, start),
        follows_fetch(fetched, next),
    ensures
        start is Fetch <==> source is Url,
        start matches LoadStart::Fetch(u) ==> (source matches SchemaSource::Url(v) && u@ == v@),
        start matches LoadStart::ReadFile(f) ==> (source matches SchemaSource::File(g) && f@ == g@),
        next is ReadCache <==> fetched is Err,
        next matches AfterFetch::CacheAndUse(bytes) ==> fetched == Ok::<Vec<u8>, SchemaError>(
            bytes,
        ),
{
}

/// A document that is handed out is of version 3, and comes with the bytes that it
/// was read from.
pub proof fn loaded_documents_are_of_version_3(
    bytes: Seq<u8>,
    r: Result<(OpenApi, Vec<u8>), SchemaError>,
    version: Seq<char>,
)
    requires
        ends_load(bytes, r),
    ensures
        r matches Ok(pair) ==> pair.1@ == bytes && (pair.0@.get("openapi"@) == Some(
            JsonView::Text(version),
        ) ==> version.len() >= 2 && version[0] == '3' && version[1] == '.'),
{
}

} // verus!
