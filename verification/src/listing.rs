//! Raw scraped listing: the common shape every source produces, before any
//! normalization or extraction.

use vstd::prelude::*;
use crate::time::Timestamp;

verus! {

/// A listing as found on a page.
#[derive(Debug, PartialEq)]
pub struct RawListing {
    /// Config id of the source that produced this listing.
    pub source_id: String,
    pub title: String,
    /// Raw price text as found on the page, e.g. "1 234,56 €".
    pub price_text: String,
    /// Absolute listing URL (not yet canonicalized).
    pub url: String,
    pub scraped_at: Timestamp,
}

/// What `RawListing` holds.
#[verifier::ext_equal]
pub struct RawListingView {
    pub source_id: Seq<char>,
    pub title: Seq<char>,
    pub price_text: Seq<char>,
    pub url: Seq<char>,
    pub scraped_at: Timestamp,
}

impl DeepView for RawListing {
    type V = RawListingView;

    open spec fn deep_view(&self) -> RawListingView {
        RawListingView {
            source_id: self.source_id@,
            title: self.title@,
            price_text: self.price_text@,
            url: self.url@,
            scraped_at: self.scraped_at,
        }
    }
}

impl Clone for RawListing {
    fn clone(&self) -> (r: Self)
        ensures
            r.deep_view() == self.deep_view(),
    {
        RawListing {
            source_id: self.source_id.clone(),
            title: self.title.clone(),
            price_text: self.price_text.clone(),
            url: self.url.clone(),
            scraped_at: self.scraped_at,
        }
    }
}

} // verus!
