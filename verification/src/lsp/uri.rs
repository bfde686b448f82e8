//! How files are named to language servers.

use crate::path::{is_absolute, AbsolutePath};
use vstd::prelude::*;

verus! {

/// The URI that `lsp_types` makes of the path of a file.
pub uninterp spec fn file_uri(path: Seq<char>) -> Seq<char>;

/// Calls `lsp_types::Url::from_file_path` and prints the URI. It fails on a path that does not
/// begin at the root, and on no other.
#[verifier::external_body]
fn url_from_file_path(path: &str) -> (uri: Result<String, ()>)
    ensures
        match uri {
            Ok(uri) => is_absolute(path@) && uri@ == file_uri(path@),
            Err(_) => !is_absolute(path@),
        },
{
    lsp_types::Url::from_file_path(path).map(|uri| uri.to_string())
}

/// The URI of a file.
pub fn path_buf_to_url(path: &AbsolutePath) -> (uri: String)
    ensures
        uri@ == file_uri(path@),
{
    match url_from_file_path(path.as_str()) {
        Ok(uri) => uri,
        Err(_) => String::new(),
    }
}

} // verus!
