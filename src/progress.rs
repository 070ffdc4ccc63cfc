use vstd::prelude::*;

verus! {

/// What the downloader reports once a file has been fetched and written.
#[derive(Debug, Clone, Copy, PartialEq, Eq, Structural)]
pub struct DownloadCallbackProgress {
    /// Number of bytes written to the destination file.
    pub bytes_downloaded: u64,
    /// Size the server declared for the body, or 0 when it declared none.
    pub total_bytes: u64,
}

/// The declared size of a response body, with 0 standing for "not declared".
pub open spec fn declared_total(content_length: Option<u64>) -> u64 {
    match content_length {
        Some(n) => n,
        None => 0,
    }
}

/// Builds the terminal progress record of one download from the number of
/// bytes written and the content length that the response declared, if any.
pub fn progress_for(written: u64, content_length: Option<u64>) -> (r: DownloadCallbackProgress)
    ensures
        r.bytes_downloaded == written,
        r.total_bytes == declared_total(content_length),
{
    let total_bytes = match content_length {
        Some(n) => n,
        None => 0,
    };
    DownloadCallbackProgress { bytes_downloaded: written, total_bytes }
}

} // verus!
