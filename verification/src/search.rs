//! Fuzzy search of clip titles.
use vstd::prelude::*;
use crate::schema::ObjectId;
use nucleo_matcher::{Config, Matcher, Utf32Str};
use nucleo_matcher::pattern::{CaseMatching, Normalization, Pattern};

verus! {

/// The fuzzy matcher of the nucleo-matcher crate.
#[verifier::external_type_specification]
#[verifier::external_body]
pub struct ExMatcher(Matcher);

/// Scores clip titles against a search query.
pub struct Searcher {
    matcher: Matcher,
    /// whether `matcher` was made with nucleo's default configuration (its
    /// case and normalization settings aside, which each score sets anew)
    default_config: Ghost<bool>,
}

/// The score that nucleo-matcher gives `haystack` for `query`, parsed as a
/// pattern with case ignored and smart normalization, using a matcher with
/// the default configuration; `None` when the haystack does not match.
pub uninterp spec fn fuzzy_score(query: Seq<char>, haystack: Seq<char>) -> Option<u32>;

/// A matcher with nucleo-matcher's default configuration (`Matcher::new`).
#[verifier::external_body]
fn default_matcher() -> Matcher {
    Matcher::new(Config::DEFAULT)
}

impl Searcher {
    /// Whether the searcher's matcher has nucleo-matcher's default
    /// configuration, the one that [`fuzzy_score`] names the scores of, but
    /// for its case and normalization settings, which every score overwrites
    /// with those of the pattern.
    pub closed spec fn default_config(&self) -> bool {
        self.default_config@
    }

    /// A searcher whose matcher has the default configuration.
    pub fn new() -> (s: Searcher)
        ensures
            s.default_config(),
    {
        Searcher { matcher: default_matcher(), default_config: Ghost(true) }
    }

    /// Calls `Pattern::score` of nucleo-matcher for `query` (parsed with
    /// `Pattern::parse`, case ignored, smart normalization) against
    /// `haystack`. `Pattern::score` sets the matcher's case and
    /// normalization settings to the pattern's and leaves the rest of its
    /// configuration as it was; with a matcher made with the default
    /// configuration the score is given a name that depends on the two texts
    /// alone.
    #[verifier::external_body]
    fn pattern_score(&mut self, query: &str, haystack: &str) -> (r: Option<u32>)
        requires
            old(self).default_config(),
        ensures
            r == fuzzy_score(query@, haystack@),
            final(self).default_config(),
    {
        let pattern = Pattern::parse(query, CaseMatching::Ignore, Normalization::Smart);
        let mut buf = Vec::new();
        pattern.score(Utf32Str::new(haystack, &mut buf), &mut self.matcher)
    }

    /// The score of `haystack` for `query`: 0 for an empty query, otherwise
    /// the fuzzy matcher's score (`None` when it does not match).
    pub fn score(&mut self, query: &str, haystack: &str) -> (r: Option<u32>)
        requires
            old(self).default_config(),
        ensures
            final(self).default_config(),
            query@.len() == 0 ==> r == Some(0u32),
            query@.len() > 0 ==> r == fuzzy_score(query@, haystack@),
    {
        if query.unicode_len() == 0 {
            return Some(0);
        }
        self.pattern_score(query, haystack)
    }
}

/// The score a title counts with: 0 when it does not match.
pub open spec fn title_score(query: Seq<char>, title: Seq<char>) -> u32 {
    if query.len() == 0 {
        0
    } else {
        match fuzzy_score(query, title) {
            Some(s) => s,
            None => 0,
        }
    }
}

/// The clips (by id) that a search keeps, with their scores: those whose
/// title scores above 0, in the given order.
pub open spec fn relevance_spec(query: Seq<char>, clips: Seq<(ObjectId, String)>) -> Seq<(ObjectId, u32)>
    decreases clips.len(),
{
    if clips.len() == 0 {
        seq![]
    } else {
        let rest = relevance_spec(query, clips.drop_last());
        let s = title_score(query, clips.last().1@);
        if s > 0 {
            rest.push((clips.last().0, s))
        } else {
            rest
        }
    }
}

/// Scores the clips' titles for a search; an empty query keeps none.
pub fn relevance_scores(searcher: &mut Searcher, query: &str, clips: &Vec<(ObjectId, String)>) -> (r: Vec<(ObjectId, u32)>)
    requires
        old(searcher).default_config(),
    ensures
        r@ == relevance_spec(query@, clips@),
        final(searcher).default_config(),
{
    let mut r: Vec<(ObjectId, u32)> = Vec::new();
    if query.unicode_len() == 0 {
        proof {
            lemma_empty_query_keeps_none(query@, clips@);
        }
        return r;
    }
    let mut i: usize = 0;
    while i < clips.len()
        invariant
            i <= clips@.len(),
            query@.len() > 0,
            searcher.default_config(),
            r@ == relevance_spec(query@, clips@.take(i as int)),
        decreases clips@.len() - i,
    {
        let s = match searcher.score(query, clips[i].1.as_str()) {
            Some(s) => s,
            None => 0,
        };
        if s > 0 {
            r.push((clips[i].0, s));
        }
        proof {
            let now = clips@.take(i + 1);
            assert(now.drop_last() =~= clips@.take(i as int));
            assert(now.last() == clips@[i as int]);
        }
        i = i + 1;
    }
    assert(clips@.take(clips@.len() as int) =~= clips@);
    r
}

proof fn lemma_empty_query_keeps_none(query: Seq<char>, clips: Seq<(ObjectId, String)>)
    requires
        query.len() == 0,
    ensures
        relevance_spec(query, clips) == Seq::<(ObjectId, u32)>::empty(),
    decreases clips.len(),
{
    if clips.len() > 0 {
        lemma_empty_query_keeps_none(query, clips.drop_last());
    }
}

/// Whether a clip shows in the grid during a search: when it is among the scored ones.
pub fn is_scored(scores: &Vec<(ObjectId, u32)>, id: ObjectId) -> (b: bool)
    ensures
        b == exists|k: int| 0 <= k < scores@.len() && (#[trigger] scores@[k]).0 == id,
{
    let mut i: usize = 0;
    while i < scores.len()
        invariant
            i <= scores@.len(),
            forall|k: int| 0 <= k < i ==> (#[trigger] scores@[k]).0 != id,
        decreases scores@.len() - i,
    {
        if scores[i].0 == id {
            return true;
        }
        i = i + 1;
    }
    false
}

/// The score a clip sorts by in relevance order: the score of its first
/// entry, or 0 when it has none.
pub fn score_of(scores: &Vec<(ObjectId, u32)>, id: ObjectId) -> (s: u32)
    ensures
        (exists|k: int| 0 <= k < scores@.len() && (#[trigger] scores@[k]).0 == id) ==> exists|k: int|
            0 <= k < scores@.len() && (#[trigger] scores@[k]).0 == id && scores@[k].1 == s && forall|
                m: int,
            | 0 <= m < k ==> (#[trigger] scores@[m]).0 != id,
        !(exists|k: int| 0 <= k < scores@.len() && (#[trigger] scores@[k]).0 == id) ==> s == 0,
{
    let mut i: usize = 0;
    while i < scores.len()
        invariant
            i <= scores@.len(),
            forall|k: int| 0 <= k < i ==> (#[trigger] scores@[k]).0 != id,
        decreases scores@.len() - i,
    {
        if scores[i].0 == id {
            return scores[i].1;
        }
        i = i + 1;
    }
    0
}

} // verus!
