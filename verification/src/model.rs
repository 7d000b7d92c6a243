//! The records that a crawl works on, and the ways a crawl can fail.

use vstd::prelude::*;
use crate::text::safe_file_name;

verus! {

/// Why a crawl stops.
#[derive(Debug, Clone, Copy, PartialEq, Eq, Structural)]
pub enum ScrapeError {
    /// A request failed, or its body could not be read.
    Network,
    /// A file could not be written.
    Filesystem,
    /// The document converter is missing or reported a failure.
    Conversion,
    /// A pattern did not compile, or what it matched cannot name a file.
    Pattern,
}

/// An image that a page embeds.
#[derive(Debug, PartialEq, Eq)]
pub struct ImageFile {
    /// Where the image is fetched from.
    pub url: String,
    /// The file it is saved to.
    pub name: String,
}

/// An assignment page.
#[derive(Debug, PartialEq, Eq)]
pub struct HTMLFile {
    /// Where the page is fetched from.
    pub url: String,
    /// The page's HTML, once it has been fetched.
    pub html_body: Option<String>,
    /// The file that the converted page is saved to.
    pub html_document_title: String,
}

/// An `ImageFile` as plain sequences.
pub struct ImageFileView {
    pub url: Seq<char>,
    pub name: Seq<char>,
}

/// An `HTMLFile` as plain sequences.
pub struct HTMLFileView {
    pub url: Seq<char>,
    pub html_body: Option<Seq<char>>,
    pub html_document_title: Seq<char>,
}

impl View for ImageFile {
    type V = ImageFileView;

    open spec fn view(&self) -> ImageFileView {
        ImageFileView { url: self.url@, name: self.name@ }
    }
}

impl DeepView for ImageFile {
    type V = ImageFileView;

    open spec fn deep_view(&self) -> ImageFileView {
        self@
    }
}

impl View for HTMLFile {
    type V = HTMLFileView;

    open spec fn view(&self) -> HTMLFileView {
        HTMLFileView {
            url: self.url@,
            html_body: self.html_body.deep_view(),
            html_document_title: self.html_document_title@,
        }
    }
}

impl DeepView for HTMLFile {
    type V = HTMLFileView;

    open spec fn deep_view(&self) -> HTMLFileView {
        self@
    }
}

/// The outcome `found` with what it holds taken as plain sequences.
pub open spec fn outcome_view<T: DeepView>(found: Result<T, ScrapeError>) -> Result<
    T::V,
    ScrapeError,
> {
    match found {
        Ok(items) => Ok(items.deep_view()),
        Err(error) => Err(error),
    }
}

impl ImageFileView {
    /// The image can be saved: its name is a safe file name.
    pub open spec fn well_formed(self) -> bool {
        safe_file_name(self.name)
    }
}

impl HTMLFileView {
    /// The converted page can be saved: its title is a safe file name.
    pub open spec fn well_formed(self) -> bool {
        safe_file_name(self.html_document_title)
    }
}

} // verus!
