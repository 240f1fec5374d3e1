//! Which format an archive has and where it is unpacked, both read off its
//! path alone.

use crate::errors::{ErrorKind, ErrorView};
use crate::paths::{extension, extension_of, strip_extension, without_extension};
use crate::text::same_text;
use vstd::prelude::*;

verus! {

/// The archive formats that can be unpacked.
#[derive(Debug, Clone, Copy, PartialEq, Eq)]
pub enum ArchiveFormat {
    /// A zip file.
    Zip,
    /// A tar file compressed with gzip.
    TarGz,
}

/// What is to be done with a downloaded archive.
#[derive(Debug, Clone, PartialEq, Eq)]
pub struct Extraction {
    /// How the archive is read.
    pub format: ArchiveFormat,
    /// The directory that receives its contents.
    pub destination: String,
}

/// The format that an extension stands for: `zip` for zip, `gz` for a
/// compressed tar file, nothing else.
pub open spec fn format_named(extension: Seq<char>) -> Option<ArchiveFormat> {
    if extension == "zip"@ {
        Some(ArchiveFormat::Zip)
    } else if extension == "gz"@ {
        Some(ArchiveFormat::TarGz)
    } else {
        None
    }
}

/// The format of the archive at `path`, by the outermost extension of its
/// file name.
pub open spec fn format_of(path: Seq<char>) -> Option<ArchiveFormat> {
    match extension_of(path) {
        Some(extension) => format_named(extension),
        None => None,
    }
}

/// The extension that `path` is refused for: the outermost extension of its
/// file name, or the empty text where it has none.
pub open spec fn refused_extension(path: Seq<char>) -> Seq<char> {
    match extension_of(path) {
        Some(extension) => extension,
        None => Seq::empty(),
    }
}

/// The format that `extension` stands for.
pub fn format_for(extension: &str) -> (format: Option<ArchiveFormat>)
    ensures
        format == format_named(extension@),
{
    if same_text(extension, "zip") {
        Some(ArchiveFormat::Zip)
    } else if same_text(extension, "gz") {
        Some(ArchiveFormat::TarGz)
    } else {
        None
    }
}

/// Decides how the archive at `archive` is unpacked and into which
/// directory: beside the archive, under the archive's name without its
/// outermost extension. An archive whose extension is neither `zip` nor `gz`
/// is refused, with that extension in the error.
pub fn extract(archive: &str) -> (plan: Result<Extraction, ErrorKind>)
    ensures
        match format_of(archive@) {
            Some(format) => plan matches Ok(extraction) && extraction.format == format
                && extraction.destination@ == without_extension(archive@),
            None => plan matches Err(error) && error@ == ErrorView::UnsupportedFormat(
                refused_extension(archive@),
            ),
        },
{
    match extension(archive) {
        Some(found) => match format_for(found.as_str()) {
            Some(format) => Ok(Extraction { format, destination: strip_extension(archive) }),
            None => Err(ErrorKind::UnsupportedFormat(found)),
        },
        None => Err(ErrorKind::UnsupportedFormat(String::new())),
    }
}

} // verus!
