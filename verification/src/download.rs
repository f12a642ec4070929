//! Download-side name resolution.
//!
//! The fetch-and-cache collaborator saves a URL's content under the URL
//! path's final segment. Fetching and saving are I/O and stay with the
//! caller; deriving that file name from the URL is logic and is verified
//! here, with the URL parse itself behind one trusted wrapper named by
//! [`url_path_of`].

use vstd::prelude::*;
use crate::paths::{copy_range, drop_component, scan_back_component, SLASH};

verus! {

/// Why a file name could not be derived from a URL.
#[derive(Debug)]
pub enum DownloadError {
    /// The URL does not parse; the message carries the parser's cause.
    ParseError(String),
    /// No file name can be inferred from the URL.
    NoFileNameError,
}

/// What url's parser yields on a string: none if the string does not parse
/// as a URL; `Some(None)` for a cannot-be-a-base URL, which has no path
/// segments; and the URL's percent-encoded path bytes otherwise. A fixed
/// function of the string alone.
pub uninterp spec fn url_path_of(url: Seq<char>) -> Option<Option<Seq<u8>>>;

/// Relies on url's `Url::parse`, `Url::cannot_be_a_base` and `Url::path`:
/// parsing is deterministic in the input string, and for a URL that can be
/// a base the path is documented to start with a `/` slash.
#[verifier::external_body]
fn url_path_raw(url: &str) -> (r: Result<Option<Vec<u8>>, String>)
    ensures
        match r {
            Ok(Some(p)) => url_path_of(url@) == Some(Some(p@)) && p@.len() > 0 && p@[0] == SLASH,
            Ok(None) => url_path_of(url@) == Some(None::<Seq<u8>>),
            Err(_) => url_path_of(url@) is None,
        },
{
    match url::Url::parse(url) {
        Ok(u) => {
            if u.cannot_be_a_base() {
                Ok(None)
            } else {
                Ok(Some(u.path().as_bytes().to_vec()))
            }
        },
        Err(e) => Err(format!("{}", e)),
    }
}

/// The last slash-separated segment of a URL path; none if that segment is
/// empty.
pub open spec fn url_file_name(path: Seq<u8>) -> Option<Seq<u8>> {
    let seg = path.subrange(drop_component(path).len() as int, path.len() as int);
    if seg.len() == 0 {
        None
    } else {
        Some(seg)
    }
}

/// The outcome of deriving a download file name from a URL string.
pub ghost enum UrlNameOutcome {
    /// The string does not parse as a URL.
    Invalid,
    /// The URL yields no non-empty final path segment.
    NoName,
    /// The derived file name: the URL path's final segment.
    Name(Seq<u8>),
}

/// The outcome for `url`, in the order the call checks it.
pub open spec fn url_name_outcome(url: Seq<char>) -> UrlNameOutcome {
    match url_path_of(url) {
        None => UrlNameOutcome::Invalid,
        Some(None) => UrlNameOutcome::NoName,
        Some(Some(p)) => match url_file_name(p) {
            None => UrlNameOutcome::NoName,
            Some(n) => UrlNameOutcome::Name(n),
        },
    }
}

/// The file name a download saves `url`'s content under: the URL path's
/// final segment.
pub fn download_file_name(url: &str) -> (r: Result<Vec<u8>, DownloadError>)
    ensures
        match r {
            Ok(name) => url_name_outcome(url@) == UrlNameOutcome::Name(name@),
            Err(DownloadError::NoFileNameError) => url_name_outcome(url@)
                == UrlNameOutcome::NoName,
            Err(DownloadError::ParseError(_)) => url_name_outcome(url@)
                == UrlNameOutcome::Invalid,
        },
{
    let path = match url_path_raw(url) {
        Ok(Some(p)) => p,
        Ok(None) => {
            return Err(DownloadError::NoFileNameError);
        },
        Err(m) => {
            return Err(DownloadError::ParseError(m));
        },
    };
    let j = scan_back_component(path.as_slice(), path.len());
    proof {
        assert(path@.take(path@.len() as int) =~= path@);
    }
    if j == path.len() {
        return Err(DownloadError::NoFileNameError);
    }
    Ok(copy_range(path.as_slice(), j, path.len()))
}

} // verus!
