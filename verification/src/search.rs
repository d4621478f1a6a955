//! Picking a track from the library by a textual query: an exact alias or
//! case-folded title match wins; otherwise the best fuzzy match does.

use vstd::prelude::*;

verus! {

use fuzzy_matcher::FuzzyMatcher;

use crate::models::{Track, TrackModel};
use crate::text::str_to_chars;

/// What `str::to_lowercase` returns: a function of the characters alone.
pub uninterp spec fn lower_of(s: Seq<char>) -> Seq<char>;

/// Relies on `str::to_lowercase`: the case-folded text, a function of the
/// characters alone.
#[verifier::external_body]
fn lowercase(s: &str) -> (r: String)
    ensures
        r@ == lower_of(s@),
{
    s.to_lowercase()
}

/// What `SkimMatcherV2::fuzzy_match` returns under its default
/// configuration: a function of the two texts alone.
pub uninterp spec fn fuzzy_of(text: Seq<char>, pattern: Seq<char>) -> Option<i64>;

/// Relies on `fuzzy_matcher::skim::SkimMatcherV2::fuzzy_match` with the
/// default configuration: a deterministic score for how well `pattern`
/// matches `text`, or nothing when it does not match.
#[verifier::external_body]
fn fuzzy_score(text: &str, pattern: &str) -> (r: Option<i64>)
    ensures
        r == fuzzy_of(text@, pattern@),
{
    fuzzy_matcher::skim::SkimMatcherV2::default().fuzzy_match(text, pattern)
}

/// Whether `q` names the track outright: its exact alias, or its title up to
/// case.
pub open spec fn exact_match(t: TrackModel, q: Seq<char>) -> bool {
    t.alias == Some(q) || lower_of(t.title) == lower_of(q)
}

/// The track's fuzzy score for `q`: the better of the title's and the
/// alias's scores, an unmatched text counting as zero.
pub open spec fn score_of(t: TrackModel, q: Seq<char>) -> int {
    let ts = match fuzzy_of(t.title, q) {
        Some(s) => s as int,
        None => 0,
    };
    let als = match t.alias {
        Some(a) => match fuzzy_of(a, q) {
            Some(s) => s as int,
            None => 0,
        },
        None => 0,
    };
    if ts >= als {
        ts
    } else {
        als
    }
}

fn chars_equal(a: &Vec<char>, b: &Vec<char>) -> (r: bool)
    ensures
        r == (a@ == b@),
{
    if a.len() != b.len() {
        return false;
    }
    let mut i: usize = 0;
    while i < a.len()
        invariant
            a@.len() == b@.len(),
            i <= a@.len(),
            forall|j: int| 0 <= j < i ==> a@[j] == b@[j],
        decreases a@.len() - i,
    {
        if a[i] != b[i] {
            return false;
        }
        i = i + 1;
    }
    proof {
        assert(a@ =~= b@);
    }
    true
}

/// The index of the track `query` picks, if any: the first exact match, or
/// failing that the first track with the highest positive fuzzy score.
pub fn find_track(tracks: &Vec<Track>, query: &str) -> (r: Option<usize>)
    ensures
        ({
            let m = tracks@.map_values(|t: Track| t@);
            let q = query@;
            match r {
                Some(i) => {
                    &&& i < m.len()
                    &&& if exists|j: int| 0 <= j < m.len() && exact_match(#[trigger] m[j], q) {
                        &&& exact_match(m[i as int], q)
                        &&& forall|j: int| 0 <= j < i ==> !exact_match(#[trigger] m[j], q)
                    } else {
                        &&& score_of(m[i as int], q) > 0
                        &&& forall|j: int|
                            0 <= j < m.len() ==> score_of(#[trigger] m[j], q) <= score_of(
                                m[i as int],
                                q,
                            )
                        &&& forall|j: int|
                            0 <= j < i ==> score_of(#[trigger] m[j], q) < score_of(
                                m[i as int],
                                q,
                            )
                    }
                },
                None => forall|j: int|
                    0 <= j < m.len() ==> !exact_match(#[trigger] m[j], q) && score_of(
                        m[j],
                        q,
                    ) <= 0,
            }
        }),
{
    let ghost m = tracks@.map_values(|t: Track| t@);
    let qchars = str_to_chars(query);
    let qlower = lowercase(query);
    let qlower_chars = str_to_chars(qlower.as_str());
    let mut i: usize = 0;
    while i < tracks.len()
        invariant
            m == tracks@.map_values(|t: Track| t@),
            qchars@ == query@,
            qlower_chars@ == lower_of(query@),
            i <= m.len(),
            forall|j: int| 0 <= j < i ==> !exact_match(#[trigger] m[j], query@),
        decreases tracks@.len() - i,
    {
        let t = &tracks[i];
        let alias_hit = match &t.alias {
            Some(a) => {
                let achars = str_to_chars(a.as_str());
                chars_equal(&achars, &qchars)
            },
            None => false,
        };
        if alias_hit {
            return Some(i);
        }
        let tlower = lowercase(t.title.as_str());
        let tlower_chars = str_to_chars(tlower.as_str());
        if chars_equal(&tlower_chars, &qlower_chars) {
            return Some(i);
        }
        proof {
            assert(m[i as int] == tracks@[i as int]@);
            assert(!exact_match(m[i as int], query@));
        }
        i = i + 1;
    }
    let mut best: Option<(usize, i64)> = None;
    let mut k: usize = 0;
    while k < tracks.len()
        invariant
            m == tracks@.map_values(|t: Track| t@),
            k <= m.len(),
            forall|j: int| 0 <= j < m.len() ==> !exact_match(#[trigger] m[j], query@),
            match best {
                None => forall|j: int| 0 <= j < k ==> score_of(#[trigger] m[j], query@) <= 0,
                Some((bi, bs)) => {
                    &&& bi < k <= m.len()
                    &&& bs as int == score_of(m[bi as int], query@)
                    &&& bs > 0
                    &&& forall|j: int|
                        0 <= j < k ==> score_of(#[trigger] m[j], query@) <= bs as int
                    &&& forall|j: int|
                        0 <= j < bi ==> score_of(#[trigger] m[j], query@) < bs as int
                },
            },
        decreases tracks@.len() - k,
    {
        let t = &tracks[k];
        let title_score: i64 = match fuzzy_score(t.title.as_str(), query) {
            Some(s) => s,
            None => 0,
        };
        let alias_score: i64 = match &t.alias {
            Some(a) => match fuzzy_score(a.as_str(), query) {
                Some(s) => s,
                None => 0,
            },
            None => 0,
        };
        let score = if title_score >= alias_score {
            title_score
        } else {
            alias_score
        };
        proof {
            assert(m[k as int] == tracks@[k as int]@);
            assert(score as int == score_of(m[k as int], query@));
        }
        let better = match best {
            None => score > 0,
            Some((_, bs)) => score > bs,
        };
        if better {
            best = Some((k, score));
        }
        k = k + 1;
    }
    match best {
        Some((bi, _)) => Some(bi),
        None => None,
    }
}

} // verus!
