//! Management of OPML feed-subscription lists: parsing an OPML document into
//! feed records with hierarchical category paths, regenerating OPML from a
//! feed list, analysis reports, and a feed validation engine that classifies
//! fetched documents as RSS or Atom under a bounded retry/backoff policy.

use vstd::prelude::*;

pub mod classify;
pub mod cli;
pub mod clock;
pub mod error;
pub mod feed;
pub mod numfmt;
pub mod opml;
pub mod report;
pub mod strutil;
pub mod tui;
pub mod urlinfo;
pub mod validation;
pub mod xml;

verus! {

} // verus!
