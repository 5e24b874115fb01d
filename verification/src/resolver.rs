use crate::err::Error;
use crate::parser::{strip_tags, title_start, underscore_to_space};
use crate::remote::{RemoteService, SeriesID, SeriesInfo};
use crate::text::{lower_chars, lower_seq, str_to_chars};
use vstd::prelude::*;

verus! {

/// The number of single-character edits between two character sequences: a
/// deterministic function of the two sequences alone.
pub uninterp spec fn edit_distance(a: Seq<char>, b: Seq<char>) -> int;

/// Relies on `strsim::levenshtein`: the minimum number of insertions,
/// deletions and substitutions between the two strings, a function of the
/// two strings alone, and zero for equal strings.
#[verifier::external_body]
fn levenshtein_distance(a: &str, b: &str) -> (r: usize)
    ensures
        r == edit_distance(a@, b@),
        a@ == b@ ==> r == 0,
{
    strsim::levenshtein(a, b)
}

/// The similarity of two character sequences in thousandths: the edit
/// distance normalised by the longer length, inverted so that 1000 means
/// equal. A reported distance beyond the longer length counts as completely
/// dissimilar. This integer score stands in for floating-point similarity
/// metrics, which the verified core cannot hold; the selection law (best
/// score above a 0.75 threshold, earlier candidate on ties) is unchanged.
pub open spec fn similarity_permille(a: Seq<char>, b: Seq<char>) -> int {
    let maxlen = if a.len() >= b.len() {
        a.len() as int
    } else {
        b.len() as int
    };
    if maxlen == 0 {
        1000
    } else {
        let d = if edit_distance(a, b) > maxlen {
            maxlen
        } else if edit_distance(a, b) < 0 {
            0
        } else {
            edit_distance(a, b)
        };
        1000 * (maxlen - d) / maxlen
    }
}

/// Executable similarity in thousandths.
fn similarity_permille_exec(a: &str, b: &str) -> (r: u32)
    ensures
        r == similarity_permille(a@, b@),
        r <= 1000,
        a@ == b@ ==> r == 1000,
{
    let alen = a.unicode_len();
    let blen = b.unicode_len();
    let maxlen: usize = if alen >= blen {
        alen
    } else {
        blen
    };
    if maxlen == 0 {
        return 1000;
    }
    let d0 = levenshtein_distance(a, b);
    let d: usize = if d0 > maxlen {
        maxlen
    } else {
        d0
    };
    let num: u128 = 1000u128 * ((maxlen - d) as u128);
    let den: u128 = maxlen as u128;
    let q: u128 = num / den;
    proof {
        assert(1000 * ((maxlen - d) as int) / (maxlen as int) <= 1000) by (nonlinear_arith)
            requires
                0 < maxlen as int,
                0 <= (maxlen - d) as int <= maxlen as int,
        ;
        assert(q == 1000 * ((maxlen - d) as int) / (maxlen as int));
        if a@ == b@ {
            assert(d == 0);
            assert(1000 * (maxlen as int) / (maxlen as int) == 1000) by (nonlinear_arith)
                requires
                    0 < maxlen as int,
            ;
        }
    }
    q as u32
}

/// The similarity a candidate title scores against the query, both ASCII
/// lowercased.
pub open spec fn candidate_score(candidate: SeriesInfo, name: Seq<char>) -> int {
    similarity_permille(lower_seq(candidate.title@.romaji), lower_seq(name))
}

/// The best fuzzy match for `name` among `items`: the index of the earliest
/// candidate with the highest similarity, provided that similarity exceeds
/// `min_confidence_permille` (in thousandths).
pub fn closest_match(name: &str, min_confidence_permille: u32, items: &Vec<SeriesInfo>) -> (r:
    Option<usize>)
    ensures
        match r {
            Some(i) => {
                &&& i < items@.len()
                &&& candidate_score(items@[i as int], name@) > min_confidence_permille
                &&& forall|j: int|
                    0 <= j < items@.len() ==> candidate_score(#[trigger] items@[j], name@)
                        <= candidate_score(items@[i as int], name@)
                &&& forall|j: int|
                    0 <= j < i ==> candidate_score(#[trigger] items@[j], name@) < candidate_score(
                        items@[i as int],
                        name@,
                    )
            },
            None => forall|j: int|
                0 <= j < items@.len() ==> candidate_score(#[trigger] items@[j], name@)
                    <= min_confidence_permille,
        },
{
    let name_chars = str_to_chars(name);
    let name_lower = crate::text::chars_to_string(&lower_chars(&name_chars));
    let mut best: u32 = min_confidence_permille;
    let mut best_idx: Option<usize> = None;
    let mut i: usize = 0;
    while i < items.len()
        invariant
            i <= items@.len(),
            name_lower@ == lower_seq(name@),
            best >= min_confidence_permille,
            match best_idx {
                Some(b) => {
                    &&& b < i
                    &&& candidate_score(items@[b as int], name@) == best
                    &&& best > min_confidence_permille
                    &&& forall|j: int|
                        0 <= j < i ==> candidate_score(#[trigger] items@[j], name@) <= best
                    &&& forall|j: int|
                        0 <= j < b ==> candidate_score(#[trigger] items@[j], name@) < best
                },
                None => {
                    &&& best == min_confidence_permille
                    &&& forall|j: int|
                        0 <= j < i ==> candidate_score(#[trigger] items@[j], name@)
                            <= min_confidence_permille
                },
            },
        decreases items@.len() - i,
    {
        let title_chars = str_to_chars(items[i].title.romaji.as_str());
        let title_lower = crate::text::chars_to_string(&lower_chars(&title_chars));
        let score = similarity_permille_exec(title_lower.as_str(), name_lower.as_str());
        if score > best {
            best = score;
            best_idx = Some(i);
        }
        i = i + 1;
    }
    best_idx
}

/// The confidence a search result must exceed, in thousandths.
pub const MIN_CONFIDENCE_PERMILLE: u32 = 750;

/// The best match for a local title among remote search results, or
/// `NoMatchingSeries` when none is similar enough.
pub fn best_matching_info(name: &str, items: &Vec<SeriesInfo>) -> (r: Result<usize, Error>)
    ensures
        match r {
            Ok(i) => {
                &&& i < items@.len()
                &&& candidate_score(items@[i as int], name@) > 750
                &&& forall|j: int|
                    0 <= j < items@.len() ==> candidate_score(#[trigger] items@[j], name@)
                        <= candidate_score(items@[i as int], name@)
                &&& forall|j: int|
                    0 <= j < i ==> candidate_score(#[trigger] items@[j], name@) < candidate_score(
                        items@[i as int],
                        name@,
                    )
            },
            Err(e) => e is NoMatchingSeries && forall|j: int|
                0 <= j < items@.len() ==> candidate_score(#[trigger] items@[j], name@) <= 750,
        },
{
    match closest_match(name, MIN_CONFIDENCE_PERMILLE, items) {
        Some(i) => Ok(i),
        None => Err(Error::NoMatchingSeries { name: name.to_owned() }),
    }
}

/// The series title a directory name denotes: underscores become spaces, a
/// leading bracketed group is dropped, trailing release tags are stripped.
pub open spec fn folder_title_spec(name: Seq<char>) -> Seq<char> {
    let u = underscore_to_space(name);
    strip_tags(u.subrange(title_start(u), u.len() as int))
}

/// Extract the series title from a directory's base name.
pub fn parse_folder_title(name: &str) -> (r: String)
    ensures
        r@ == folder_title_spec(name@),
{
    let chars = str_to_chars(name);
    let u = crate::parser::underscore_exec(&chars);
    let st = crate::parser::title_start_idx(&u);
    let tail = crate::parser::copy_range(&u, st, u.len());
    let title = crate::parser::strip_tags_exec(&tail);
    crate::text::chars_to_string(&title)
}

/// How the remote catalog entry for a local series is chosen: directly by
/// id, or by fuzzy title search.
pub enum SeriesInfoSelector {
    Name(String),
    ID(SeriesID),
}

impl SeriesInfoSelector {
    /// Resolve the selector against the remote catalog.
    pub fn best_match_from_remote<R: RemoteService>(&self, remote_svc: &R) -> (r: Result<
        SeriesInfo,
        Error,
    >)
        ensures
            match *self {
                SeriesInfoSelector::ID(id) => r matches Ok(info) ==> info.id == id,
                SeriesInfoSelector::Name(_) => true,
            },
    {
        match self {
            SeriesInfoSelector::Name(name) => {
                let mut results = match remote_svc.search_info_by_name(name.as_str()) {
                    Ok(results) => results,
                    Err(e) => {
                        return Err(e);
                    },
                };
                match best_matching_info(name.as_str(), &results) {
                    Ok(i) => Ok(results.swap_remove(i)),
                    Err(e) => Err(e),
                }
            },
            SeriesInfoSelector::ID(id) => remote_svc.search_info_by_id(*id),
        }
    }
}

} // verus!
