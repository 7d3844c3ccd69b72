//! The cached copy of the OpenAPI document: where it lies and whether a new
//! one differs. The files themselves are read and written elsewhere.

use vstd::prelude::*;

use super::SchemaError;
use crate::text::str_eq;

verus! {

broadcast use vstd::string::group_string_axioms;

/// A name inside a directory.
pub open spec fn path_in(dir: Seq<char>, name: Seq<char>) -> Seq<char> {
    if dir.len() == 0 || dir.last() == '/' {
        dir + name
    } else {
        dir + "/"@ + name
    }
}

/// The path of a name inside a directory.
pub fn join_path(dir: &str, name: &str) -> (r: String)
    ensures
        r@ == path_in(dir@, name@),
{
    let cs: Vec<char> = crate::text::chars_of(dir);
    if cs.len() == 0 || cs[cs.len() - 1] == '/' {
        dir.to_owned().concat(name)
    } else {
        dir.to_owned().concat("/").concat(name)
    }
}

/// The cache directory: the value of `ALLEGRO_MCP_CACHE_DIR` when it is set,
/// the subdirectory `allegro-mcp` of the platform's cache directory otherwise.
pub open spec fn cache_directory(env: Option<Seq<char>>, platform: Option<Seq<char>>) -> Option<
    Seq<char>,
> {
    match (env, platform) {
        (Some(d), _) => Some(d),
        (None, Some(p)) => Some(path_in(p, "allegro-mcp"@)),
        (None, None) => None,
    }
}

/// What an optional text is.
pub open spec fn opt_str(o: Option<&str>) -> Option<Seq<char>> {
    match o {
        Some(s) => Some(s@),
        None => None,
    }
}

/// Whether `r` is the path of `name` in the cache directory, or the error that
/// there is none.
pub open spec fn is_cache_path(
    r: Result<String, SchemaError>,
    env: Option<Seq<char>>,
    platform: Option<Seq<char>>,
    name: Seq<char>,
) -> bool {
    match cache_directory(env, platform) {
        Some(d) => r matches Ok(p) && p@ == path_in(d, name),
        None => r matches Err(SchemaError::NoCacheDir),
    }
}

/// The cache directory, given the environment variable and the platform's
/// cache directory.
pub fn cache_dir(env: Option<&str>, platform: Option<&str>) -> (r: Result<String, SchemaError>)
    ensures
        match cache_directory(opt_str(env), opt_str(platform)) {
            Some(d) => r matches Ok(p) && p@ == d,
            None => r matches Err(SchemaError::NoCacheDir),
        },
{
    match (env, platform) {
        (Some(d), _) => Ok(d.to_owned()),
        (None, Some(p)) => Ok(join_path(p, "allegro-mcp")),
        (None, None) => Err(SchemaError::NoCacheDir),
    }
}

/// The path of the cached document.
pub fn cache_path(env: Option<&str>, platform: Option<&str>) -> (r: Result<String, SchemaError>)
    ensures
        is_cache_path(r, opt_str(env), opt_str(platform), "swagger.yaml"@),
{
    match cache_dir(env, platform) {
        Ok(d) => Ok(join_path(d.as_str(), "swagger.yaml")),
        Err(e) => Err(e),
    }
}

/// The path of the file that holds the checksum of the cached document.
pub fn sha256_path(env: Option<&str>, platform: Option<&str>) -> (r: Result<String, SchemaError>)
    ensures
        is_cache_path(r, opt_str(env), opt_str(platform), "swagger.yaml.sha256"@),
{
    match cache_dir(env, platform) {
        Ok(d) => Ok(join_path(d.as_str(), "swagger.yaml.sha256")),
        Err(e) => Err(e),
    }
}

/// The SHA-256 checksum of a sequence of bytes, in hexadecimal.
pub uninterp spec fn sha256_text(bytes: Seq<u8>) -> Seq<char>;

/// Whether `s` is 64 small hexadecimal digits.
pub open spec fn is_sha256_text(s: Seq<char>) -> bool {
    &&& s.len() == 64
    &&& forall|i: int|
        0 <= i < s.len() ==> {
            let c = #[trigger] s[i];
            ('0' <= c && c <= '9') || ('a' <= c && c <= 'f')
        }
}

/// Calls `Sha256::digest` and writes the 32 bytes in small hexadecimal digits:
/// a function of the bytes alone.
#[verifier::external_body]
fn digest_hex(bytes: &[u8]) -> (r: String)
    ensures
        r@ == sha256_text(bytes@),
        is_sha256_text(r@),
{
    format!("{:x}", <sha2::Sha256 as sha2::Digest>::digest(bytes))
}

/// The SHA-256 checksum of a sequence of bytes, in hexadecimal.
pub fn sha256_hex(bytes: &[u8]) -> (r: String)
    ensures
        r@ == sha256_text(bytes@),
        is_sha256_text(r@),
{
    digest_hex(bytes)
}

/// What to write to the cache: the document and its checksum.
pub struct CacheFiles {
    pub document: Vec<u8>,
    pub checksum: String,
}

/// What to write to the cache for a document.
pub fn write_cache(bytes: &[u8]) -> (r: CacheFiles)
    ensures
        r.document@ == bytes@,
        r.checksum@ == sha256_text(bytes@),
        is_sha256_text(r.checksum@),
{
    let mut document: Vec<u8> = Vec::new();
    document.extend_from_slice(bytes);
    assert(document@ =~= bytes@);
    CacheFiles { document, checksum: sha256_hex(bytes) }
}

/// The stored checksum: what the file holds, nothing when it cannot be read.
pub fn read_cached_sha256(file: Option<String>) -> (r: String)
    ensures
        r@ == match file {
            Some(s) => s@,
            None => Seq::empty(),
        },
{
    match file {
        Some(s) => s,
        None => String::new(),
    }
}

/// Whether a document with this checksum differs from the one whose checksum
/// is stored. With nothing stored there is nothing to differ from.
pub open spec fn drifted(current: Seq<char>, cached: Seq<char>) -> bool {
    cached.len() > 0 && current != cached
}

/// Whether a document differs from the one whose checksum is stored.
pub fn detect_drift(bytes: &[u8], cached: &str) -> (r: bool)
    ensures
        r == drifted(sha256_text(bytes@), cached@),
{
    let current: String = sha256_hex(bytes);
    checksum_drifted(current.as_str(), cached)
}

/// Whether two checksums tell of a drift.
pub fn checksum_drifted(current: &str, cached: &str) -> (r: bool)
    ensures
        r == drifted(current@, cached@),
{
    !cached.is_empty() && !str_eq(current, cached)
}

/// A document never differs from its own cached copy.
pub proof fn cached_document_has_not_drifted(bytes: Seq<u8>)
    ensures
        !drifted(sha256_text(bytes), sha256_text(bytes)),
{
}

/// A name stands in a directory behind one slash, whether or not the directory is
/// written with one at its end.
pub proof fn names_stand_in_their_directory(dir: Seq<char>, name: Seq<char>)
    requires
        dir.len() > 0,
        dir.last() != '/',
    ensures
        path_in(dir, name) == dir + seq!['/'] + name,
        path_in(dir + seq!['/'], name) == path_in(dir, name),
        path_in(Seq::empty(), name) == name,
{
    reveal_strlit("/");
    assert("/"@ =~= seq!['/']);
    assert((dir + seq!['/']).last() == '/');
}

/// A directory that the environment names is the cache directory; without one it
/// lies in that of the platform, and without both there is none.
pub proof fn where_the_cache_is(env: Option<Seq<char>>, platform: Option<Seq<char>>)
    ensures
        env is Some ==> cache_directory(env, platform) == env,
        env is None ==> (platform matches Some(p) ==> cache_directory(env, platform) == Some(
            path_in(p, "allegro-mcp"@),
        )),
        env is None && platform is None ==> cache_directory(env, platform) is None,
{
}

/// A drift is told exactly where a checksum is stored and the document has
/// another one.
pub proof fn drift_is_told(current: Seq<char>, cached: Seq<char>)
    ensures
        cached.len() == 0 ==> !drifted(current, cached),
        cached.len() > 0 ==> (drifted(current, cached) <==> current != cached),
{
}

} // verus!
