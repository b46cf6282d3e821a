//! Filtering the playlist by a search text, matched loosely against what
//! is known of each song.

use crate::song::{text_view, Song};
use fuzzy_matcher::skim::SkimMatcherV2;
use fuzzy_matcher::FuzzyMatcher;
use vstd::prelude::*;

verus! {

/// The score that the skim matcher, as it comes by default, gives to a
/// text for a pattern; `None` where the text does not match the pattern.
pub uninterp spec fn skim_score(choice: Seq<char>, pattern: Seq<char>) -> Option<i64>;

/// Calls `fuzzy_matcher::skim::SkimMatcherV2::fuzzy_match` on a matcher
/// made by `SkimMatcherV2::default`: the result is the matcher's score of
/// `choice` for `pattern`.
#[verifier::external_body]
pub(crate) fn fuzzy_match(choice: &str, pattern: &str) -> (res: Option<i64>)
    ensures
        res == skim_score(choice@, pattern@),
{
    SkimMatcherV2::default().fuzzy_match(choice, pattern)
}

/// A text in lower case, as `str::to_lowercase` gives it.
pub uninterp spec fn lowercase(text: Seq<char>) -> Seq<char>;

/// Calls `str::to_lowercase`: the result is the text with each character
/// replaced by its lower-case form.
#[verifier::external_body]
fn to_lowercase(text: &str) -> (res: String)
    ensures
        res@ == lowercase(text@),
{
    text.to_lowercase()
}

/// Whether a song with the given score passes a search: it matched, or
/// there was nothing to search for.
pub open spec fn spec_passes(search: Seq<char>, score: Option<i64>) -> bool {
    score is Some || search.len() == 0
}

/// Decides from the score of a song whether it passes the search.
pub fn passes(search: &str, score: Option<i64>) -> (res: bool)
    ensures
        res == spec_passes(search@, score),
{
    score.is_some() || search.is_empty()
}

/// A filter that lets through the songs that match a search text.
#[derive(Debug)]
pub struct FuzzyFilter {
    search: Option<String>,
}

impl View for FuzzyFilter {
    type V = Option<Seq<char>>;

    closed spec fn view(&self) -> Option<Seq<char>> {
        text_view(self.search)
    }
}

impl Default for FuzzyFilter {
    fn default() -> (res: Self)
        ensures
            res@ is None,
    {
        FuzzyFilter::new()
    }
}

impl FuzzyFilter {
    /// A filter without search text, which lets every song through.
    pub fn new() -> (res: FuzzyFilter)
        ensures
            res@ is None,
    {
        FuzzyFilter { search: None }
    }

    pub fn search(&self) -> (res: Option<String>)
        ensures
            text_view(res) == self@,
    {
        crate::song::clone_text(&self.search)
    }

    /// Sets the search text, which is kept in lower case. A text equal to
    /// the one that is kept changes nothing. Returns whether the filter
    /// changed, which is when what it filters has to be looked through
    /// again.
    pub fn set_search(&mut self, search: Option<String>) -> (changed: bool)
        ensures
            changed == (old(self)@ != text_view(search)),
            final(self)@ == if changed {
                match search {
                    Some(text) => Some(lowercase(text@)),
                    None => None,
                }
            } else {
                old(self)@
            },
    {
        let same = match (&self.search, &search) {
            (Some(kept), Some(new)) => *kept == *new,
            (None, None) => true,
            _ => false,
        };
        if same {
            false
        } else {
            self.search = match search {
                Some(text) => Some(to_lowercase(text.as_str())),
                None => None,
            };
            true
        }
    }

    /// Whether the filter lets through a song whose search key is `key`.
    pub fn match_key(&self, key: &str) -> (res: bool)
        ensures
            res == match self@ {
                Some(search) => spec_passes(search, skim_score(key@, search)),
                None => true,
            },
    {
        match &self.search {
            Some(search) => {
                let score = fuzzy_match(key, search.as_str());
                passes(search.as_str(), score)
            },
            None => true,
        }
    }

    /// Whether the filter lets `song` through. The three texts are what is
    /// shown for an artist, an album and a title that the song does not
    /// have.
    pub fn match_(
        &self,
        song: &Song,
        unknown_artist: &str,
        unknown_album: &str,
        unknown_title: &str,
    ) -> (res: bool)
        ensures
            res == match self@ {
                Some(search) => spec_passes(
                    search,
                    skim_score(
                        crate::song::spec_search_key(
                            song@.data,
                            unknown_artist@,
                            unknown_album@,
                            unknown_title@,
                        ),
                        search,
                    ),
                ),
                None => true,
            },
    {
        let key = song.search_key(unknown_artist, unknown_album, unknown_title);
        self.match_key(key.as_str())
    }
}

} // verus!
