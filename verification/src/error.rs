use vstd::prelude::*;

use crate::numfmt::{spec_decimal, usize_to_string};

verus! {

/// The error taxonomy for OPML handling and feed validation. Variants that
/// wrapped an outside error type carry that error's rendered message.
#[derive(Debug)]
pub enum OPMLError {
    Io(String),
    XMLParsing(String),
    Http(String),
    NoBodyTag,
    InvalidStructure(String),
    ValidationError(String),
    UrlParsing(String),
    CategoryNestingTooDeep(usize),
    FeedAttributeError(String),
    FeedParsingError(String),
    ResponseParsingError(String),
}

/// The mathematical value of an `OPMLError`.
pub enum OPMLErrorView {
    Io(Seq<char>),
    XMLParsing(Seq<char>),
    Http(Seq<char>),
    NoBodyTag,
    InvalidStructure(Seq<char>),
    ValidationError(Seq<char>),
    UrlParsing(Seq<char>),
    CategoryNestingTooDeep(usize),
    FeedAttributeError(Seq<char>),
    FeedParsingError(Seq<char>),
    ResponseParsingError(Seq<char>),
}

impl View for OPMLError {
    type V = OPMLErrorView;

    open spec fn view(&self) -> OPMLErrorView {
        match self {
            OPMLError::Io(m) => OPMLErrorView::Io(m@),
            OPMLError::XMLParsing(m) => OPMLErrorView::XMLParsing(m@),
            OPMLError::Http(m) => OPMLErrorView::Http(m@),
            OPMLError::NoBodyTag => OPMLErrorView::NoBodyTag,
            OPMLError::InvalidStructure(m) => OPMLErrorView::InvalidStructure(m@),
            OPMLError::ValidationError(m) => OPMLErrorView::ValidationError(m@),
            OPMLError::UrlParsing(m) => OPMLErrorView::UrlParsing(m@),
            OPMLError::CategoryNestingTooDeep(d) => OPMLErrorView::CategoryNestingTooDeep(*d),
            OPMLError::FeedAttributeError(m) => OPMLErrorView::FeedAttributeError(m@),
            OPMLError::FeedParsingError(m) => OPMLErrorView::FeedParsingError(m@),
            OPMLError::ResponseParsingError(m) => OPMLErrorView::ResponseParsingError(m@),
        }
    }
}

/// The message each error renders.
pub open spec fn spec_message(e: OPMLErrorView) -> Seq<char> {
    match e {
        OPMLErrorView::Io(m) => "IO error: "@ + m,
        OPMLErrorView::XMLParsing(m) => "XML parsing error: "@ + m,
        OPMLErrorView::Http(m) => "HTTP error: "@ + m,
        OPMLErrorView::NoBodyTag => "No body tag found in OPML"@,
        OPMLErrorView::InvalidStructure(m) => "Invalid OPML structure: "@ + m,
        OPMLErrorView::ValidationError(m) => "Feed validation error: "@ + m,
        OPMLErrorView::UrlParsing(m) => "URL parsing error: "@ + m,
        OPMLErrorView::CategoryNestingTooDeep(d) => "Category nesting too deep: maximum depth is "@
            + spec_decimal(d as nat) + " levels"@,
        OPMLErrorView::FeedAttributeError(m) => "Feed attribute error: "@ + m,
        OPMLErrorView::FeedParsingError(m) => "Feed parsing error: "@ + m,
        OPMLErrorView::ResponseParsingError(m) => "Response parsing error: "@ + m,
    }
}

impl OPMLError {
    /// Renders the error as its human-readable message.
    pub fn message(&self) -> (r: String)
        ensures
            r@ == spec_message(self@),
    {
        match self {
            OPMLError::Io(m) => {
                let mut r = String::from_str("IO error: ");
                r.append(m.as_str());
                r
            },
            OPMLError::XMLParsing(m) => {
                let mut r = String::from_str("XML parsing error: ");
                r.append(m.as_str());
                r
            },
            OPMLError::Http(m) => {
                let mut r = String::from_str("HTTP error: ");
                r.append(m.as_str());
                r
            },
            OPMLError::NoBodyTag => String::from_str("No body tag found in OPML"),
            OPMLError::InvalidStructure(m) => {
                let mut r = String::from_str("Invalid OPML structure: ");
                r.append(m.as_str());
                r
            },
            OPMLError::ValidationError(m) => {
                let mut r = String::from_str("Feed validation error: ");
                r.append(m.as_str());
                r
            },
            OPMLError::UrlParsing(m) => {
                let mut r = String::from_str("URL parsing error: ");
                r.append(m.as_str());
                r
            },
            OPMLError::CategoryNestingTooDeep(d) => {
                let mut r = String::from_str("Category nesting too deep: maximum depth is ");
                let digits = usize_to_string(*d);
                r.append(digits.as_str());
                r.append(" levels");
                r
            },
            OPMLError::FeedAttributeError(m) => {
                let mut r = String::from_str("Feed attribute error: ");
                r.append(m.as_str());
                r
            },
            OPMLError::FeedParsingError(m) => {
                let mut r = String::from_str("Feed parsing error: ");
                r.append(m.as_str());
                r
            },
            OPMLError::ResponseParsingError(m) => {
                let mut r = String::from_str("Response parsing error: ");
                r.append(m.as_str());
                r
            },
        }
    }
}

} // verus!
