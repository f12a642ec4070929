//! Deriving a download file name from a URL.

use librarian::download::{download_file_name, DownloadError};

#[test]
fn web_file_name_is_last_segment() {
    assert_eq!(
        download_file_name("https://httpbin.org/base64/YWJj").unwrap(),
        b"YWJj".to_vec()
    );
    assert_eq!(
        download_file_name("http://invalid.url/but/the/file/is/still/cached/YWJj").unwrap(),
        b"YWJj".to_vec()
    );
}

#[test]
fn trailing_slash_has_no_file_name() {
    assert!(matches!(
        download_file_name("https://example.com/downloads/"),
        Err(DownloadError::NoFileNameError)
    ));
}

#[test]
fn bare_host_has_no_file_name() {
    assert!(matches!(
        download_file_name("https://example.com"),
        Err(DownloadError::NoFileNameError)
    ));
}

#[test]
fn cannot_be_a_base_url_has_no_file_name() {
    assert!(matches!(
        download_file_name("data:text/plain,abc"),
        Err(DownloadError::NoFileNameError)
    ));
}

#[test]
fn unparsable_url_is_a_parse_error() {
    assert!(matches!(
        download_file_name("http://[not a url"),
        Err(DownloadError::ParseError(_))
    ));
}
