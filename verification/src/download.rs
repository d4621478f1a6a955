//! The fetch step's pure logic: recognising video identifiers in URLs. The
//! fetching itself runs external tools and lives outside the core.

use vstd::prelude::*;

verus! {

use crate::config::Config;
use crate::text::{chars_to_string, str_to_chars};

/// Drives the external fetch tools; only its pure parts live here.
pub struct Downloader {
    pub config: Config,
}

impl Downloader {
    pub fn new(config: Config) -> (r: Self)
        ensures
            r.config == config,
    {
        Downloader { config }
    }

    /// The directory downloads land in.
    pub fn audio_dir(&self) -> (r: String)
        ensures
            r@ == self.config.storage.path@ + "/audio"@,
    {
        self.config.audio_dir()
    }
}

/// Whether `pat` occurs in `s` starting at `i`.
pub open spec fn match_at(s: Seq<char>, pat: Seq<char>, i: int) -> bool {
    0 <= i && i + pat.len() <= s.len() && s.subrange(i, i + pat.len()) == pat
}

/// The first position at or after `i` where `pat` occurs in `s`.
pub open spec fn first_match_from(s: Seq<char>, pat: Seq<char>, i: int) -> Option<int>
    decreases s.len() - i,
    when 0 <= i <= s.len() && pat.len() >= 1
{
    if i + pat.len() > s.len() {
        None
    } else if match_at(s, pat, i) {
        Some(i)
    } else {
        first_match_from(s, pat, i + 1)
    }
}

/// Whether `c` separates URL query parameters.
pub open spec fn is_sep(c: char) -> bool {
    c == '?' || c == '&'
}

/// The first separator position in `s` within `lo..hi`.
pub open spec fn first_sep_between(s: Seq<char>, lo: int, hi: int) -> Option<int>
    decreases hi - lo,
    when lo <= hi <= s.len() && 0 <= lo
{
    if lo >= hi {
        None
    } else if is_sep(s[lo]) {
        Some(lo)
    } else {
        first_sep_between(s, lo + 1, hi)
    }
}

/// The first position at or after `i` that starts a query parameter "v=":
/// the start of the string or right after a separator, followed by 'v', '='.
pub open spec fn first_v_start(s: Seq<char>, i: int) -> Option<int>
    decreases s.len() - i,
    when 0 <= i <= s.len()
{
    if i + 2 > s.len() {
        None
    } else if (i == 0 || is_sep(s[i - 1])) && s[i] == 'v' && s[i + 1] == '=' {
        Some(i)
    } else {
        first_v_start(s, i + 1)
    }
}

/// The short-host marker.
pub open spec fn youtu_be_pat() -> Seq<char> {
    seq!['y', 'o', 'u', 't', 'u', '.', 'b', 'e', '/']
}

/// The long-host marker.
pub open spec fn youtube_com_pat() -> Seq<char> {
    seq!['y', 'o', 'u', 't', 'u', 'b', 'e', '.', 'c', 'o', 'm']
}

/// The video identifier named by a URL. After the short host's marker, the
/// identifier runs to the next marker occurrence, truncated at the first '?'
/// or '&'. On the long host, it is what follows the first "v=" parameter, up
/// to the next separator. Other URLs name none.
pub open spec fn spec_extract_video_id(u: Seq<char>) -> Option<Seq<char>> {
    match first_match_from(u, youtu_be_pat(), 0) {
        Some(i) => {
            let start = i + youtu_be_pat().len();
            let stop = match first_match_from(u, youtu_be_pat(), start) {
                Some(j) => j,
                None => u.len() as int,
            };
            let end = match first_sep_between(u, start, stop) {
                Some(k) => k,
                None => stop,
            };
            Some(u.subrange(start, end))
        },
        None => match first_match_from(u, youtube_com_pat(), 0) {
            Some(_) => match first_v_start(u, 0) {
                Some(p) => {
                    let start = p + 2;
                    let end = match first_sep_between(u, start, u.len() as int) {
                        Some(k) => k,
                        None => u.len() as int,
                    };
                    Some(u.subrange(start, end))
                },
                None => None,
            },
            None => None,
        },
    }
}

fn chars_eq_at(v: &Vec<char>, pat: &Vec<char>, i: usize) -> (r: bool)
    requires
        i + pat@.len() <= v@.len(),
    ensures
        r == match_at(v@, pat@, i as int),
{
    let n = v.len();
    let mut j: usize = 0;
    while j < pat.len()
        invariant
            v@.len() <= usize::MAX,
            i + pat@.len() <= v@.len(),
            j <= pat@.len(),
            forall|jj: int| 0 <= jj < j ==> v@[i + jj] == pat@[jj],
        decreases pat@.len() - j,
    {
        if v[i + j] != pat[j] {
            proof {
                assert(v@.subrange(i as int, i + pat@.len())[j as int] != pat@[j as int]);
            }
            return false;
        }
        j = j + 1;
    }
    proof {
        assert(v@.subrange(i as int, i + pat@.len()) =~= pat@);
    }
    true
}

fn find_seq(v: &Vec<char>, pat: &Vec<char>, from: usize) -> (r: Option<usize>)
    requires
        from <= v@.len(),
        pat@.len() >= 1,
    ensures
        r matches Some(i) ==> first_match_from(v@, pat@, from as int) == Some(i as int) && from
            <= i && i + pat@.len() <= v@.len(),
        r is None ==> first_match_from(v@, pat@, from as int) is None,
{
    if pat.len() > v.len() - from {
        return None;
    }
    let bound = v.len() - pat.len();
    let mut i: usize = from;
    while i <= bound
        invariant
            from <= i,
            v@.len() <= usize::MAX,
            1 <= pat@.len() <= v@.len(),
            bound == v@.len() - pat@.len(),
            i <= bound + 1,
            first_match_from(v@, pat@, from as int) == first_match_from(v@, pat@, i as int),
        decreases bound + 1 - i,
    {
        if chars_eq_at(v, pat, i) {
            return Some(i);
        }
        i = i + 1;
    }
    None
}

fn find_sep(v: &Vec<char>, lo: usize, hi: usize) -> (r: Option<usize>)
    requires
        lo <= hi <= v@.len(),
    ensures
        r matches Some(k) ==> first_sep_between(v@, lo as int, hi as int) == Some(k as int)
            && lo <= k < hi,
        r is None ==> first_sep_between(v@, lo as int, hi as int) is None,
{
    let mut i: usize = lo;
    while i < hi
        invariant
            lo <= i <= hi <= v@.len(),
            first_sep_between(v@, lo as int, hi as int) == first_sep_between(
                v@,
                i as int,
                hi as int,
            ),
        decreases hi - i,
    {
        let c = v[i];
        if c == '?' || c == '&' {
            return Some(i);
        }
        i = i + 1;
    }
    None
}

fn find_v_start(v: &Vec<char>) -> (r: Option<usize>)
    ensures
        r matches Some(p) ==> first_v_start(v@, 0) == Some(p as int) && p + 2 <= v@.len(),
        r is None ==> first_v_start(v@, 0) is None,
{
    if v.len() < 2 {
        return None;
    }
    let bound = v.len() - 2;
    let mut i: usize = 0;
    while i <= bound
        invariant
            v@.len() <= usize::MAX,
            v@.len() >= 2,
            bound == v@.len() - 2,
            i <= bound + 1,
            first_v_start(v@, 0) == first_v_start(v@, i as int),
        decreases bound + 1 - i,
    {
        let at_start = if i == 0 {
            true
        } else {
            let prev = v[i - 1];
            prev == '?' || prev == '&'
        };
        if at_start && v[i] == 'v' && v[i + 1] == '=' {
            return Some(i);
        }
        i = i + 1;
    }
    None
}

fn sub_chars(v: &Vec<char>, lo: usize, hi: usize) -> (r: Vec<char>)
    requires
        lo <= hi <= v@.len(),
    ensures
        r@ == v@.subrange(lo as int, hi as int),
{
    let mut r: Vec<char> = Vec::new();
    let mut i: usize = lo;
    while i < hi
        invariant
            lo <= i <= hi <= v@.len(),
            r@ == v@.subrange(lo as int, i as int),
        decreases hi - i,
    {
        r.push(v[i]);
        i = i + 1;
        proof {
            assert(v@.subrange(lo as int, i as int) =~= v@.subrange(lo as int, i - 1).push(
                v@[i - 1],
            ));
        }
    }
    r
}

/// The video identifier named by `url`, per [`spec_extract_video_id`].
pub fn extract_video_id(url: &str) -> (r: Option<String>)
    ensures
        r matches Some(x) ==> spec_extract_video_id(url@) == Some(x@),
        r is None ==> spec_extract_video_id(url@) is None,
{
    let v = str_to_chars(url);
    let n = v.len();
    let be: Vec<char> = vec!['y', 'o', 'u', 't', 'u', '.', 'b', 'e', '/'];
    proof {
        assert(be@ =~= youtu_be_pat());
    }
    match find_seq(&v, &be, 0) {
        Some(i) => {
            let start = i + 9;
            let stop = match find_seq(&v, &be, start) {
                Some(j) => j,
                None => v.len(),
            };
            let end = match find_sep(&v, start, stop) {
                Some(k) => k,
                None => stop,
            };
            let seg = sub_chars(&v, start, end);
            Some(chars_to_string(&seg))
        },
        None => {
            let yc: Vec<char> = vec!['y', 'o', 'u', 't', 'u', 'b', 'e', '.', 'c', 'o', 'm'];
            proof {
                assert(yc@ =~= youtube_com_pat());
            }
            match find_seq(&v, &yc, 0) {
                Some(_) => {
                    match find_v_start(&v) {
                        Some(p) => {
                            let start = p + 2;
                            let end = match find_sep(&v, start, v.len()) {
                                Some(k) => k,
                                None => v.len(),
                            };
                            let seg = sub_chars(&v, start, end);
                            Some(chars_to_string(&seg))
                        },
                        None => None,
                    }
                },
                None => None,
            }
        },
    }
}

} // verus!
