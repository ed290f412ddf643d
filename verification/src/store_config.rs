//! Choices made while opening the object store behind the databases: which URLs
//! are accepted, where a local store keeps its files, and where a shard lives.
use vstd::prelude::*;
use vstd::string::StrSliceExecFns;
use crate::error::{StorageError, append_decimal, decimal_text};

verus! {

/// Whether `url::Url::parse` accepts a text: a function of the text alone, which
/// the URL standard takes pages to state.
pub uninterp spec fn url_parses(raw: Seq<char>) -> bool;

/// Whether `object_store::ObjectStoreScheme::parse` accepts the URL that
/// `url::Url::parse` makes of a text: it recognizes the scheme (and, for some
/// schemes, the host), and the URL's path decodes into an object store path.
/// A function of the text alone.
pub uninterp spec fn object_store_url_accepted(raw: Seq<char>) -> bool;

/// Parses `raw` with `url::Url::parse`, then hands the URL to
/// `object_store::ObjectStoreScheme::parse`; the recognized scheme and path are
/// dropped, and a failure of either becomes its error's `Display` text (the
/// scheme parser's error type is not exported). The claim is that it succeeds
/// exactly on the texts both names accept; the messages are left unsaid.
#[verifier::external_body]
fn check_object_store_url(raw: &str) -> (r: Result<(), String>)
    ensures
        r is Ok <==> (url_parses(raw@) && object_store_url_accepted(raw@)),
{
    let url = url::Url::parse(raw).map_err(|e| e.to_string())?;
    slatedb::object_store::ObjectStoreScheme::parse(&url).map(|_| ()).map_err(|e| e.to_string())
}

/// Checks that `url` parses and names an object store scheme; either failure is
/// reported as an object-store configuration error with the parser's message.
pub fn validate_object_store_url(url: &str) -> (r: Result<(), StorageError>)
    ensures
        r is Ok <==> (url_parses(url@) && object_store_url_accepted(url@)),
        r matches Err(e) ==> e is ObjectStoreConfig,
{
    match check_object_store_url(url) {
        Ok(()) => Ok(()),
        Err(message) => Err(StorageError::ObjectStoreConfig { message }),
    }
}

/// Where a local file store keeps its files.
#[derive(Debug)]
pub enum LocalRoot {
    /// The URL was not written with a `file:` prefix: the parsed URL's path.
    UrlPath,
    /// `file:` alone: the current directory.
    CurrentDir,
    /// `file://...`: the file path the absolute URL names.
    FileUrl,
    /// `file:` followed by a relative path: that path as written.
    Relative(String),
}

/// Whether a URL text is written with the `file:` prefix.
pub open spec fn has_file_prefix(raw: Seq<char>) -> bool {
    raw.len() >= 5 && raw.subrange(0, 5) == "file:"@
}

/// What follows the `file:` prefix.
pub open spec fn after_file_prefix(raw: Seq<char>) -> Seq<char> {
    raw.subrange(5, raw.len() as int)
}

/// Whether a text starts with `//`.
pub open spec fn starts_with_double_slash(s: Seq<char>) -> bool {
    s.len() >= 2 && s[0] == '/' && s[1] == '/'
}

/// The root a local store uses for the URL text `raw_url`.
pub fn local_root(raw_url: &str) -> (r: LocalRoot)
    ensures
        !has_file_prefix(raw_url@) ==> r is UrlPath,
        has_file_prefix(raw_url@) && after_file_prefix(raw_url@).len() == 0 ==> r is CurrentDir,
        has_file_prefix(raw_url@) && starts_with_double_slash(after_file_prefix(raw_url@)) ==> r is FileUrl,
        has_file_prefix(raw_url@) && after_file_prefix(raw_url@).len() > 0 && !starts_with_double_slash(
            after_file_prefix(raw_url@),
        ) ==> (r matches LocalRoot::Relative(p) && p@ == after_file_prefix(raw_url@)),
{
    let n = raw_url.unicode_len();
    proof {
        reveal_strlit("file:");
    }
    if n < 5 {
        return LocalRoot::UrlPath;
    }
    let head = raw_url.substring_char(0, 5);
    let prefix = "file:";
    if !(head.get_char(0) == prefix.get_char(0) && head.get_char(1) == prefix.get_char(1)
        && head.get_char(2) == prefix.get_char(2) && head.get_char(3) == prefix.get_char(3)
        && head.get_char(4) == prefix.get_char(4)) {
        proof {
            if raw_url@.subrange(0, 5) == "file:"@ {
                assert(head@ == prefix@);
            }
        }
        return LocalRoot::UrlPath;
    }
    assert(head@ =~= prefix@);
    if n == 5 {
        return LocalRoot::CurrentDir;
    }
    if n >= 7 && raw_url.get_char(5) == '/' && raw_url.get_char(6) == '/' {
        return LocalRoot::FileUrl;
    }
    let rest = raw_url.substring_char(5, n);
    LocalRoot::Relative(rest.to_owned())
}

/// The directory name of a shard.
pub open spec fn shard_segment_text(id: usize) -> Seq<char> {
    "shard-"@ + decimal_text(id as nat)
}

/// The directory name of shard `id` under the store's base path.
pub fn shard_segment(id: usize) -> (r: String)
    ensures
        r@ == shard_segment_text(id),
{
    let mut s = String::from_str("shard-");
    append_decimal(&mut s, id as u64);
    s
}
} // verus!
