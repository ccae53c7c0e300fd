//! The canonical announcement record: one normalized exchange notice, with
//! its listing classification derived from title and content.

use vstd::prelude::*;

use crate::classifier::{
    categories_signal_listing, spec_analyze, spec_categories_signal_listing, spec_symbols,
    analyze, extract_symbol_strings,
};

verus! {

/// A normalized exchange announcement.
///
/// `is_new_listing` and `token_symbols` are derived from title and content by
/// the classifier; the one exception is the out-of-band category override,
/// which forces the listing flag but still derives the symbols.
#[derive(Clone, Debug)]
pub struct Announcement {
    /// Identifier, unique only within its source's stream.
    pub id: String,
    /// Title of the announcement.
    pub title: String,
    /// Full text content; may be empty.
    pub content: String,
    /// URL of the announcement source.
    pub url: String,
    /// Name of the exchange that published it.
    pub exchange: String,
    /// Publication instant, in seconds since the Unix epoch (UTC).
    pub published_at: i64,
    /// Whether the announcement signals a new token listing.
    pub is_new_listing: bool,
    /// Symbols mentioned, upper-cased, first-seen order, deduplicated.
    pub token_symbols: Vec<String>,
}

impl Announcement {
    /// The derived fields agree with the classifier on (title, content).
    pub open spec fn classified(&self) -> bool {
        (self.is_new_listing, self.token_symbols.deep_view()) == spec_analyze(
            self.title@,
            self.content@,
        )
    }

    /// The derived fields as the category override leaves them: the listing
    /// flag forced, the symbols still derived from title and content.
    pub open spec fn classified_with_override(&self) -> bool {
        self.is_new_listing && self.token_symbols.deep_view() == spec_symbols(
            self.title@,
            self.content@,
        )
    }

    /// The derived-field invariant: the classifier's verdict, or the
    /// override's.
    pub open spec fn derived_fields_consistent(&self) -> bool {
        self.classified() || self.classified_with_override()
    }

    /// Builds an announcement with the derived fields at their defaults: not
    /// a listing, no symbols.
    pub fn new(
        id: String,
        title: String,
        content: String,
        url: String,
        exchange: String,
        published_at: i64,
    ) -> (r: Announcement)
        ensures
            r.id == id,
            r.title == title,
            r.content == content,
            r.url == url,
            r.exchange == exchange,
            r.published_at == published_at,
            !r.is_new_listing,
            r.token_symbols@.len() == 0,
    {
        Announcement {
            id,
            title,
            content,
            url,
            exchange,
            published_at,
            is_new_listing: false,
            token_symbols: Vec::new(),
        }
    }

    /// Derives the listing flag and the symbols from title and content.
    pub fn analyze_for_new_listing(&mut self)
        ensures
            final(self).classified(),
            final(self).is_new_listing == spec_analyze(
                old(self).title@,
                old(self).content@,
            ).0,
            final(self).token_symbols.deep_view() == spec_analyze(
                old(self).title@,
                old(self).content@,
            ).1,
            final(self).id == old(self).id,
            final(self).title == old(self).title,
            final(self).content == old(self).content,
            final(self).url == old(self).url,
            final(self).exchange == old(self).exchange,
            final(self).published_at == old(self).published_at,
    {
        let (is_new_listing, token_symbols) = analyze(self.title.as_str(), self.content.as_str());
        self.is_new_listing = is_new_listing;
        self.token_symbols = token_symbols;
    }

    /// Applies the out-of-band category override: when the remote category
    /// metadata flags a listing and the heuristic disagreed, forces the
    /// listing flag and re-derives the symbols, keeping the derived-field
    /// invariant.
    pub fn apply_category_override(&mut self, categories: &Vec<String>)
        requires
            old(self).derived_fields_consistent(),
        ensures
            final(self).derived_fields_consistent(),
            final(self).is_new_listing == (old(self).is_new_listing
                || spec_categories_signal_listing(categories@.map_values(|s: String| s@))),
            final(self).is_new_listing ==> final(self).token_symbols.deep_view() == spec_symbols(
                old(self).title@,
                old(self).content@,
            ),
            !final(self).is_new_listing ==> *final(self) == *old(self),
            final(self).id == old(self).id,
            final(self).title == old(self).title,
            final(self).content == old(self).content,
            final(self).url == old(self).url,
            final(self).exchange == old(self).exchange,
            final(self).published_at == old(self).published_at,
    {
        if !self.is_new_listing && categories_signal_listing(categories) {
            self.is_new_listing = true;
            self.token_symbols = extract_symbol_strings(
                self.title.as_str(),
                self.content.as_str(),
            );
        } else {
            proof {
                if self.is_new_listing {
                    assert(self.classified() ==> self.token_symbols.deep_view() == spec_symbols(
                        self.title@,
                        self.content@,
                    ));
                }
            }
        }
    }
}

} // verus!
