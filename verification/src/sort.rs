//! Sorting the playlist: by how well each song matches a search text, or by
//! file name where nothing is searched for.

use crate::search::{fuzzy_match, skim_score};
use crate::song::{text_view, Song};
use crate::utils::Comparison;
use vstd::prelude::*;

verus! {

/// How two scores rank: the better score comes first, and a song that
/// matches comes before one that does not.
pub open spec fn spec_rank_scores(first: Option<i64>, second: Option<i64>) -> Comparison {
    match (first, second) {
        (Some(a), Some(b)) => if a > b {
            Comparison::Less
        } else if a == b {
            Comparison::Equal
        } else {
            Comparison::Greater
        },
        (Some(_), None) => Comparison::Less,
        (None, Some(_)) => Comparison::Greater,
        (None, None) => Comparison::Equal,
    }
}

/// Ranks two songs by their scores.
pub fn rank_scores(first: Option<i64>, second: Option<i64>) -> (res: Comparison)
    ensures
        res == spec_rank_scores(first, second),
{
    match (first, second) {
        (Some(a), Some(b)) => if a > b {
            Comparison::Less
        } else if a == b {
            Comparison::Equal
        } else {
            Comparison::Greater
        },
        (Some(_), None) => Comparison::Less,
        (None, Some(_)) => Comparison::Greater,
        (None, None) => Comparison::Equal,
    }
}

/// A sorter that puts the songs that match a search text best first.
#[derive(Debug)]
pub struct FuzzySorter {
    search: Option<String>,
}

impl View for FuzzySorter {
    type V = Option<Seq<char>>;

    closed spec fn view(&self) -> Option<Seq<char>> {
        text_view(self.search)
    }
}

impl Default for FuzzySorter {
    fn default() -> (res: Self)
        ensures
            res@ is None,
    {
        FuzzySorter::new()
    }
}

impl FuzzySorter {
    /// A sorter without search text, which sorts by file name.
    pub fn new() -> (res: FuzzySorter)
        ensures
            res@ is None,
    {
        FuzzySorter { search: None }
    }

    pub fn search(&self) -> (res: Option<String>)
        ensures
            text_view(res) == self@,
    {
        crate::song::clone_text(&self.search)
    }

    /// Sets the search text. Returns whether it changed, which is when
    /// what is sorted has to be sorted again.
    pub fn set_search(&mut self, search: Option<String>) -> (changed: bool)
        ensures
            changed == (old(self)@ != text_view(search)),
            final(self)@ == text_view(search),
    {
        let same = match (&self.search, &search) {
            (Some(kept), Some(new)) => *kept == *new,
            (None, None) => true,
            _ => false,
        };
        if same {
            false
        } else {
            self.search = search;
            true
        }
    }

    /// Ranks two songs given by their search keys. With a search text the
    /// scores decide; without one the songs rank as their files do, which
    /// is `by_file`.
    pub fn compare_keys(&self, first: &str, second: &str, by_file: Comparison) -> (res: Comparison)
        ensures
            res == match self@ {
                Some(search) => spec_rank_scores(
                    skim_score(first@, search),
                    skim_score(second@, search),
                ),
                None => by_file,
            },
    {
        match &self.search {
            Some(search) => {
                let first_score = fuzzy_match(first, search.as_str());
                let second_score = fuzzy_match(second, search.as_str());
                rank_scores(first_score, second_score)
            },
            None => by_file,
        }
    }

    /// Ranks two songs. The three texts are what is shown for an artist,
    /// an album and a title that a song does not have; `by_file` is how the
    /// files of the two songs rank.
    pub fn compare(
        &self,
        first: &Song,
        second: &Song,
        unknown_artist: &str,
        unknown_album: &str,
        unknown_title: &str,
        by_file: Comparison,
    ) -> (res: Comparison)
        ensures
            res == match self@ {
                Some(search) => spec_rank_scores(
                    skim_score(
                        crate::song::spec_search_key(
                            first@.data,
                            unknown_artist@,
                            unknown_album@,
                            unknown_title@,
                        ),
                        search,
                    ),
                    skim_score(
                        crate::song::spec_search_key(
                            second@.data,
                            unknown_artist@,
                            unknown_album@,
                            unknown_title@,
                        ),
                        search,
                    ),
                ),
                None => by_file,
            },
    {
        let first_key = first.search_key(unknown_artist, unknown_album, unknown_title);
        let second_key = second.search_key(unknown_artist, unknown_album, unknown_title);
        self.compare_keys(first_key.as_str(), second_key.as_str(), by_file)
    }
}

/// Ranking by score is a consistent order: a pair ranks equal to itself,
/// and turning a pair round turns its rank round.
pub proof fn lemma_rank_scores_antisymmetric(first: Option<i64>, second: Option<i64>)
    ensures
        spec_rank_scores(first, first) == Comparison::Equal,
        spec_rank_scores(second, first) == spec_rank_scores(first, second).reversed(),
{
}

} // verus!
