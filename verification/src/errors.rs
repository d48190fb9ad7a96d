//! The error taxonomy of the pipeline.

use vstd::prelude::*;

verus! {

/// Typed failure of a pipeline step.
///
/// `IoErrorDirectory` and `CustomParsingError` carry the text of the
/// underlying failure.
#[derive(Debug, Clone, PartialEq, Eq)]
pub enum MediaDownloaderError {
    GenericError,
    UnsupportedDomain,
    BlobRetrievingError,
    DownloadError,
    CouldNotExtractId,
    InvalidUrl,
    FileSizeExceeded,
    ImagesNotDownloaded,
    IoErrorDirectory(String),
    CustomParsingError(String),
    ParsingError,
    UnreachableResource,
    DriverError,
}

impl MediaDownloaderError {
    /// The user-facing text of this error.
    pub open spec fn spec_message(&self) -> Seq<char> {
        match self {
            MediaDownloaderError::UnsupportedDomain => "Domain not supported!"@,
            MediaDownloaderError::BlobRetrievingError => "Error retrieving file!"@,
            MediaDownloaderError::DownloadError => "Error downloading video!"@,
            MediaDownloaderError::CouldNotExtractId => "Error extracting video id!"@,
            MediaDownloaderError::InvalidUrl => "Invalid URL!"@,
            MediaDownloaderError::FileSizeExceeded => "File size exceeded!"@,
            MediaDownloaderError::ImagesNotDownloaded => "Images not downloaded, try again!"@,
            MediaDownloaderError::IoErrorDirectory(_) => "Error creating `images` directory!"@,
            MediaDownloaderError::CustomParsingError(s) => s@,
            _ => "Failed to download resource!"@,
        }
    }

    /// Renders the user-facing text of this error.
    pub fn message(&self) -> (r: String)
        ensures
            r@ == self.spec_message(),
    {
        match self {
            MediaDownloaderError::UnsupportedDomain => String::from_str("Domain not supported!"),
            MediaDownloaderError::BlobRetrievingError => String::from_str(
                "Error retrieving file!",
            ),
            MediaDownloaderError::DownloadError => String::from_str("Error downloading video!"),
            MediaDownloaderError::CouldNotExtractId => String::from_str(
                "Error extracting video id!",
            ),
            MediaDownloaderError::InvalidUrl => String::from_str("Invalid URL!"),
            MediaDownloaderError::FileSizeExceeded => String::from_str("File size exceeded!"),
            MediaDownloaderError::ImagesNotDownloaded => String::from_str(
                "Images not downloaded, try again!",
            ),
            MediaDownloaderError::IoErrorDirectory(_) => String::from_str(
                "Error creating `images` directory!",
            ),
            MediaDownloaderError::CustomParsingError(s) => s.clone(),
            _ => String::from_str("Failed to download resource!"),
        }
    }
}

} // verus!
