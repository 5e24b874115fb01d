use crate::err::Error;
use crate::parser::{parse_spec, parsed_ep, parsed_title, EpisodeMatcher};
use crate::text::{clone_string, lower_chars, lower_seq, str_to_chars, trim_chars, trim_spec};
use vstd::prelude::*;

verus! {

/// Two parsed titles refer to the same series when they agree after trimming
/// and ASCII lowercasing.
pub open spec fn titles_compatible(a: Seq<char>, b: Seq<char>) -> bool {
    lower_seq(trim_spec(a)) == lower_seq(trim_spec(b))
}

/// Executable title comparison.
pub fn titles_compatible_exec(a: &String, b: &String) -> (r: bool)
    ensures
        r == titles_compatible(a@, b@),
{
    let ac = str_to_chars(a.as_str());
    let bc = str_to_chars(b.as_str());
    let at = trim_chars(&ac);
    let bt = trim_chars(&bc);
    let al = lower_chars(&at);
    let bl = lower_chars(&bt);
    crate::text::eq_chars(&al, &bl)
}

/// A mapping from episode number to filename for one series directory, with
/// the single series title its files parse to.
#[derive(Debug)]
pub struct EpisodeMap {
    title: String,
    episodes: Vec<(u32, String)>,
}

impl EpisodeMap {
    /// The series title the files agree on.
    pub closed spec fn spec_title(self) -> Seq<char> {
        self.title@
    }

    /// The stored pairs of episode number and filename, in storage order.
    pub closed spec fn spec_eps(self) -> Seq<(u32, Seq<char>)> {
        eps_view(self.episodes@)
    }

    /// Episode numbers are unique and the map is never empty.
    #[verifier::type_invariant]
    pub closed spec fn inv(self) -> bool {
        &&& forall|i: int, j: int|
            0 <= i < j < self.episodes@.len() ==> (#[trigger] self.episodes@[i]).0 != (
            #[trigger] self.episodes@[j]).0
        &&& self.episodes@.len() > 0
    }

    /// Whether an episode number is present.
    pub open spec fn spec_contains(self, episode: u32) -> bool {
        exists|i: int| 0 <= i < self.spec_eps().len() && (#[trigger] self.spec_eps()[i]).0 == episode
    }

    /// The number of episodes on disk.
    pub fn len(&self) -> (r: usize)
        ensures
            r == self.spec_eps().len(),
            r > 0,
    {
        proof {
            use_type_invariant(self);
        }
        self.episodes.len()
    }

    /// The title of the series the files belong to.
    pub fn title(&self) -> (r: &String)
        ensures
            r@ == self.spec_title(),
    {
        &self.title
    }

    /// The filename of the given episode, if it is on disk.
    pub fn get(&self, episode: u32) -> (r: Option<&String>)
        ensures
            match r {
                Some(f) => exists|i: int|
                    0 <= i < self.spec_eps().len() && #[trigger] self.spec_eps()[i] == (
                    episode,
                    f@,
                ),
                None => !self.spec_contains(episode),
            },
    {
        let mut i: usize = 0;
        while i < self.episodes.len()
            invariant
                i <= self.episodes@.len(),
                forall|m: int| 0 <= m < i ==> (#[trigger] self.episodes@[m]).0 != episode,
            decreases self.episodes@.len() - i,
        {
            if self.episodes[i].0 == episode {
                proof {
                    assert(self.spec_eps()[i as int] == (episode, self.episodes@[i as int].1@));
                }
                return Some(&self.episodes[i].1);
            }
            i = i + 1;
        }
        proof {
            assert forall|m: int|
                0 <= m < self.spec_eps().len() implies (#[trigger] self.spec_eps()[m]).0
                != episode by {
                assert(self.spec_eps()[m].0 == self.episodes@[m].0);
            }
        }
        None
    }

    /// The episode numbers on disk, in storage order.
    pub fn keys(&self) -> (r: Vec<u32>)
        ensures
            r@ == self.spec_eps().map_values(|p: (u32, Seq<char>)| p.0),
            r@.len() > 0,
    {
        proof {
            use_type_invariant(self);
        }
        let mut r: Vec<u32> = Vec::new();
        let mut i: usize = 0;
        while i < self.episodes.len()
            invariant
                i <= self.episodes@.len(),
                r@ == self.spec_eps().subrange(0, i as int).map_values(
                    |p: (u32, Seq<char>)| p.0,
                ),
            decreases self.episodes@.len() - i,
        {
            r.push(self.episodes[i].0);
            proof {
                assert(self.spec_eps().subrange(0, i + 1).map_values(|p: (u32, Seq<char>)| p.0)
                    =~= self.spec_eps().subrange(0, i as int).map_values(
                    |p: (u32, Seq<char>)| p.0,
                ).push(self.spec_eps()[i as int].0));
            }
            i = i + 1;
        }
        proof {
            assert(self.spec_eps().subrange(0, self.spec_eps().len() as int) =~= self.spec_eps());
        }
        r
    }

    /// The highest episode number on disk; the map is never empty, so there
    /// always is one.
    pub fn highest(&self) -> (r: Option<u32>)
        ensures
            r matches Some(h) ==> self.spec_contains(h) && forall|i: int|
                0 <= i < self.spec_eps().len() ==> (#[trigger] self.spec_eps()[i]).0 <= h,
            r is Some,
    {
        proof {
            use_type_invariant(self);
        }
        let mut best: u32 = self.episodes[0].0;
        proof {
            assert(self.spec_eps()[0].0 == best);
        }
        let mut i: usize = 1;
        while i < self.episodes.len()
            invariant
                1 <= i <= self.episodes@.len(),
                exists|m: int|
                    0 <= m < self.spec_eps().len() && (#[trigger] self.spec_eps()[m]).0 == best,
                forall|m: int| 0 <= m < i ==> (#[trigger] self.spec_eps()[m]).0 <= best,
            decreases self.episodes@.len() - i,
        {
            let k = self.episodes[i].0;
            if k > best {
                best = k;
                proof {
                    assert(self.spec_eps()[i as int].0 == best);
                }
            }
            proof {
                assert(self.spec_eps()[i as int].0 <= best);
            }
            i = i + 1;
        }
        Some(best)
    }

    /// Build the episode map for one directory: parse each filename, adopt
    /// the first parsed title, reject a second distinct title, and map each
    /// parsed episode number to its filename (later files win duplicates).
    #[verifier::rlimit(20)]
    pub fn parse(dir_path: &str, filenames: &Vec<String>, matcher: &EpisodeMatcher) -> (r: Result<
        EpisodeMap,
        Error,
    >)
        ensures
            r matches Ok(m) ==> {
                &&& m.spec_eps().len() > 0
                &&& forall|i: int, j: int|
                    0 <= i < j < m.spec_eps().len() ==> (#[trigger] m.spec_eps()[i]).0 != (
                    #[trigger] m.spec_eps()[j]).0
                &&& forall|i: int|
                    0 <= i < m.spec_eps().len() ==> file_yields(
                        *matcher,
                        filenames@,
                        filenames@.len() as int,
                        (#[trigger] m.spec_eps()[i]).0,
                        m.spec_eps()[i].1,
                        m.spec_title(),
                    )
                &&& forall|fidx: int|
                    0 <= fidx < filenames@.len() && #[trigger] parse_spec(
                        *matcher,
                        filenames@[fidx]@,
                    ) is Some ==> has_key(m.spec_eps(), parsed_ep(*matcher, filenames@[fidx]@))
                &&& forall|fidx: int|
                    0 <= fidx < filenames@.len() && #[trigger] parse_spec(
                        *matcher,
                        filenames@[fidx]@,
                    ) is Some ==> titles_compatible(
                        parsed_title(*matcher, filenames@[fidx]@),
                        m.spec_title(),
                    )
                &&& forall|i: int|
                    0 <= i < m.spec_eps().len() ==> last_file_wins(
                        *matcher,
                        filenames@,
                        filenames@.len() as int,
                        (#[trigger] m.spec_eps()[i]).0,
                        m.spec_eps()[i].1,
                    )
                &&& some_file_titled(*matcher, filenames@, filenames@.len() as int, m.spec_title())
            },
            r matches Err(e) ==> {
                &&& e is NoEpisodes || e is MultipleTitles
                &&& e is NoEpisodes ==> forall|fidx: int|
                    0 <= fidx < filenames@.len() ==> #[trigger] parse_spec(
                        *matcher,
                        filenames@[fidx]@,
                    ) is None
                &&& e is MultipleTitles ==> incompatible_pair(*matcher, filenames@)
                &&& (e matches Error::MultipleTitles { expecting, found } ==> exists|
                    fa: int,
                    fb: int,
                |
                    {
                        &&& 0 <= fa < filenames@.len()
                        &&& 0 <= fb < filenames@.len()
                        &&& #[trigger] parse_spec(*matcher, filenames@[fa]@) is Some
                        &&& #[trigger] parse_spec(*matcher, filenames@[fb]@) is Some
                        &&& parsed_title(*matcher, filenames@[fa]@) == expecting@
                        &&& parsed_title(*matcher, filenames@[fb]@) == found@
                        &&& !titles_compatible(expecting@, found@)
                    })
            },
    {
        let mut title: Option<String> = None;
        let mut episodes: Vec<(u32, String)> = Vec::new();
        let mut fi: usize = 0;
        while fi < filenames.len()
            invariant
                fi <= filenames@.len(),
                forall|i: int, j: int|
                    0 <= i < j < episodes@.len() ==> (#[trigger] episodes@[i]).0 != (
                    #[trigger] episodes@[j]).0,
                title is Some <==> episodes@.len() > 0,
                title matches Some(t) ==> some_file_titled(*matcher, filenames@, fi as int, t@),
                title matches Some(t) ==> forall|fidx: int|
                    0 <= fidx < fi && #[trigger] parse_spec(*matcher, filenames@[fidx]@) is Some
                        ==> titles_compatible(parsed_title(*matcher, filenames@[fidx]@), t@),
                title is None ==> forall|fidx: int|
                    0 <= fidx < fi ==> #[trigger] parse_spec(*matcher, filenames@[fidx]@) is None,
                title matches Some(t) ==> forall|i: int|
                    0 <= i < eps_view(episodes@).len() ==> file_yields(
                        *matcher,
                        filenames@,
                        fi as int,
                        (#[trigger] eps_view(episodes@)[i]).0,
                        eps_view(episodes@)[i].1,
                        t@,
                    ),
                forall|fidx: int|
                    0 <= fidx < fi && #[trigger] parse_spec(*matcher, filenames@[fidx]@) is Some
                        ==> has_key(eps_view(episodes@), parsed_ep(*matcher, filenames@[fidx]@)),
                forall|i: int|
                    0 <= i < eps_view(episodes@).len() ==> last_file_wins(
                        *matcher,
                        filenames@,
                        fi as int,
                        (#[trigger] eps_view(episodes@)[i]).0,
                        eps_view(episodes@)[i].1,
                    ),
            decreases filenames@.len() - fi,
        {
            let ghost fseq = filenames@;
            let parsed = matcher.parse(filenames[fi].as_str());
            match parsed {
                Err(_) => {
                    proof {
                        assert(parse_spec(*matcher, fseq[fi as int]@) is None);
                        assert forall|i: int|
                            0 <= i < eps_view(episodes@).len() implies last_file_wins(
                            *matcher,
                            fseq,
                            fi + 1,
                            (#[trigger] eps_view(episodes@)[i]).0,
                            eps_view(episodes@)[i].1,
                        ) by {
                            lemma_last_file_extend(
                                *matcher,
                                fseq,
                                fi as int,
                                eps_view(episodes@)[i].0,
                                eps_view(episodes@)[i].1,
                            );
                        }
                    }
                },
                Ok(te) => {
                    let ghost t0 = te.0@;
                    let key: u32 = te.1;
                    proof {
                        assert(parse_spec(*matcher, fseq[fi as int]@) == Some((t0, key)));
                    }
                    match &title {
                        None => {
                            title = Some(te.0);
                        },
                        Some(existing) => {
                            if !titles_compatible_exec(existing, &te.0) {
                                proof {
                                    let fidx0 = choose|fidx: int|
                                        0 <= fidx < fi && #[trigger] parse_spec(
                                            *matcher,
                                            fseq[fidx]@,
                                        ) is Some && parsed_title(*matcher, fseq[fidx]@)
                                        == existing@;
                                    assert(titles_compatible(
                                        parsed_title(*matcher, fseq[fidx0]@),
                                        existing@,
                                    ));
                                    assert(!titles_compatible(
                                        parsed_title(*matcher, fseq[fidx0]@),
                                        parsed_title(*matcher, fseq[fi as int]@),
                                    ));
                                    assert(incompatible_pair(*matcher, fseq));
                                    assert(parsed_title(*matcher, fseq[fidx0]@) == existing@);
                                    assert(parsed_title(*matcher, fseq[fi as int]@) == t0);
                                    assert(!titles_compatible(existing@, t0));
                                }
                                return Err(
                                    Error::MultipleTitles {
                                        expecting: clone_string(existing),
                                        found: te.0,
                                    },
                                );
                            }
                        },
                    }
                    let ghost tview = title->0@;
                    proof {
                        assert(titles_compatible(t0, tview));
                        assert(some_file_titled(*matcher, fseq, fi + 1, tview));
                    }
                    let fname = clone_string(&filenames[fi]);
                    let ghost fnview = fname@;
                    let ghost eps0 = eps_view(episodes@);
                    match find_key(&episodes, key) {
                        Some(idx) => {
                            let slot = &mut episodes[idx];
                            *slot = (key, fname);
                            proof {
                                assert(eps_view(episodes@).len() == eps0.len());
                                assert(forall|i: int|
                                    0 <= i < eps0.len() && i != idx ==> #[trigger] eps_view(
                                        episodes@,
                                    )[i] == eps0[i]);
                                assert(forall|i: int|
                                    0 <= i < eps0.len() ==> (#[trigger] eps_view(episodes@)[i]).0
                                        == eps0[i].0);
                                assert(eps_view(episodes@)[idx as int] == (key, fnview));
                            }
                        },
                        None => {
                            episodes.push((key, fname));
                            proof {
                                assert(eps_view(episodes@).len() == eps0.len() + 1);
                                assert(forall|i: int|
                                    0 <= i < eps0.len() ==> #[trigger] eps_view(episodes@)[i]
                                        == eps0[i]);
                                assert(eps_view(episodes@)[eps0.len() as int] == (key, fnview));
                            }
                        },
                    }
                    proof {
                        assert(fnview == fseq[fi as int]@);
                        assert(file_yields(*matcher, fseq, fi + 1, key, fnview, tview));
                        assert(last_file_wins(*matcher, fseq, fi + 1, key, fnview));
                        assert forall|i: int|
                            0 <= i < eps_view(episodes@).len() implies last_file_wins(
                            *matcher,
                            fseq,
                            fi + 1,
                            (#[trigger] eps_view(episodes@)[i]).0,
                            eps_view(episodes@)[i].1,
                        ) by {
                            if eps_view(episodes@)[i].0 == key {
                                assert(eps_view(episodes@)[i] == (key, fnview));
                            } else {
                                assert(eps_view(episodes@)[i] == eps0[i]);
                                lemma_last_file_extend(
                                    *matcher,
                                    fseq,
                                    fi as int,
                                    eps_view(episodes@)[i].0,
                                    eps_view(episodes@)[i].1,
                                );
                            }
                        }
                        assert forall|i: int|
                            0 <= i < eps_view(episodes@).len() implies file_yields(
                            *matcher,
                            fseq,
                            fi + 1,
                            (#[trigger] eps_view(episodes@)[i]).0,
                            eps_view(episodes@)[i].1,
                            tview,
                        ) by {
                            if 0 <= i < eps0.len() && eps_view(episodes@)[i] == eps0[i] {
                                lemma_file_yields_mono(
                                    *matcher,
                                    fseq,
                                    fi as int,
                                    fi + 1,
                                    eps0[i].0,
                                    eps0[i].1,
                                    tview,
                                );
                            } else {
                                assert(eps_view(episodes@)[i] == (key, fnview));
                            }
                        }
                        assert forall|fidx: int|
                            0 <= fidx < fi + 1 && #[trigger] parse_spec(*matcher, fseq[fidx]@)
                                is Some implies has_key(
                            eps_view(episodes@),
                            parsed_ep(*matcher, fseq[fidx]@),
                        ) by {
                            if fidx == fi {
                                assert(has_key(eps_view(episodes@), key));
                            } else {
                                lemma_has_key_preserved(
                                    eps0,
                                    eps_view(episodes@),
                                    parsed_ep(*matcher, fseq[fidx]@),
                                );
                            }
                        }
                    }
                },
            }
            fi = fi + 1;
        }
        match title {
            None => Err(Error::NoEpisodes { path: dir_path.to_owned() }),
            Some(t) => {
                proof {
                    assert(fi == filenames@.len());
                }
                let m = EpisodeMap { title: t, episodes };
                Ok(m)
            },
        }
    }
}

/// Some file below `bound` parses to episode `ep` with filename `fname` and
/// a title compatible with `title`.
pub open spec fn file_yields(
    matcher: EpisodeMatcher,
    files: Seq<String>,
    bound: int,
    ep: u32,
    fname: Seq<char>,
    title: Seq<char>,
) -> bool {
    exists|fidx: int|
        {
            &&& 0 <= fidx < bound
            &&& #[trigger] parse_spec(matcher, files[fidx]@) is Some
            &&& parsed_ep(matcher, files[fidx]@) == ep
            &&& fname == files[fidx]@
            &&& titles_compatible(parsed_title(matcher, files[fidx]@), title)
        }
}

/// The filename stored for an episode comes from the last file below
/// `bound` that parses to that episode number: later files win duplicates.
pub open spec fn last_file_wins(
    matcher: EpisodeMatcher,
    files: Seq<String>,
    bound: int,
    ep: u32,
    fname: Seq<char>,
) -> bool {
    exists|fidx: int|
        {
            &&& 0 <= fidx < bound
            &&& #[trigger] parse_spec(matcher, files[fidx]@) is Some
            &&& parsed_ep(matcher, files[fidx]@) == ep
            &&& fname == files[fidx]@
            &&& forall|f2: int|
                fidx < f2 < bound && #[trigger] parse_spec(matcher, files[f2]@) is Some
                    ==> parsed_ep(matcher, files[f2]@) != ep
        }
}

proof fn lemma_last_file_extend(
    matcher: EpisodeMatcher,
    files: Seq<String>,
    bound: int,
    ep: u32,
    fname: Seq<char>,
)
    requires
        last_file_wins(matcher, files, bound, ep, fname),
        0 <= bound < files.len(),
        parse_spec(matcher, files[bound]@) is None || parsed_ep(matcher, files[bound]@) != ep,
    ensures
        last_file_wins(matcher, files, bound + 1, ep, fname),
{
    let fidx = choose|fidx: int|
        {
            &&& 0 <= fidx < bound
            &&& #[trigger] parse_spec(matcher, files[fidx]@) is Some
            &&& parsed_ep(matcher, files[fidx]@) == ep
            &&& fname == files[fidx]@
            &&& forall|f2: int|
                fidx < f2 < bound && #[trigger] parse_spec(matcher, files[f2]@) is Some
                    ==> parsed_ep(matcher, files[f2]@) != ep
        };
    assert(forall|f2: int|
        fidx < f2 < bound + 1 && #[trigger] parse_spec(matcher, files[f2]@) is Some
            ==> parsed_ep(matcher, files[f2]@) != ep);
}

/// A key is present among the stored pairs.
pub open spec fn has_key(eps: Seq<(u32, Seq<char>)>, ep: u32) -> bool {
    exists|i: int| 0 <= i < eps.len() && (#[trigger] eps[i]).0 == ep
}

/// Some file below `bound` parses to exactly this title.
pub open spec fn some_file_titled(
    matcher: EpisodeMatcher,
    files: Seq<String>,
    bound: int,
    title: Seq<char>,
) -> bool {
    exists|fidx: int|
        0 <= fidx < bound && #[trigger] parse_spec(matcher, files[fidx]@) is Some && parsed_title(
            matcher,
            files[fidx]@,
        ) == title
}

/// Two files parse to incompatible titles.
pub open spec fn incompatible_pair(matcher: EpisodeMatcher, files: Seq<String>) -> bool {
    exists|i: int, j: int|
        {
            &&& 0 <= i < files.len()
            &&& 0 <= j < files.len()
            &&& #[trigger] parse_spec(matcher, files[i]@) is Some
            &&& #[trigger] parse_spec(matcher, files[j]@) is Some
            &&& !titles_compatible(
                parsed_title(matcher, files[i]@),
                parsed_title(matcher, files[j]@),
            )
        }
}

/// The stored pairs as plain values.
pub open spec fn eps_view(s: Seq<(u32, String)>) -> Seq<(u32, Seq<char>)> {
    s.map_values(|p: (u32, String)| (p.0, p.1@))
}

proof fn lemma_file_yields_mono(
    matcher: EpisodeMatcher,
    files: Seq<String>,
    b1: int,
    b2: int,
    ep: u32,
    fname: Seq<char>,
    title: Seq<char>,
)
    requires
        b1 <= b2,
        file_yields(matcher, files, b1, ep, fname, title),
    ensures
        file_yields(matcher, files, b2, ep, fname, title),
{
    let fidx0 = choose|fidx: int|
        {
            &&& 0 <= fidx < b1
            &&& #[trigger] parse_spec(matcher, files[fidx]@) is Some
            &&& parsed_ep(matcher, files[fidx]@) == ep
            &&& fname == files[fidx]@
            &&& titles_compatible(parsed_title(matcher, files[fidx]@), title)
        };
    assert(0 <= fidx0 < b2);
}

proof fn lemma_has_key_preserved(eps0: Seq<(u32, Seq<char>)>, eps: Seq<(u32, Seq<char>)>, ep: u32)
    requires
        has_key(eps0, ep),
        eps.len() >= eps0.len(),
        forall|i: int| 0 <= i < eps0.len() ==> (#[trigger] eps[i]).0 == eps0[i].0,
    ensures
        has_key(eps, ep),
{
    let i0 = choose|i: int| 0 <= i < eps0.len() && (#[trigger] eps0[i]).0 == ep;
    assert((eps[i0]).0 == ep);
}

/// The position of an episode number among the stored pairs, if present.
fn find_key(episodes: &Vec<(u32, String)>, key: u32) -> (r: Option<usize>)
    ensures
        r matches Some(idx) ==> idx < episodes@.len() && episodes@[idx as int].0 == key,
        r is None ==> forall|m: int|
            0 <= m < episodes@.len() ==> (#[trigger] episodes@[m]).0 != key,
{
    let mut j: usize = 0;
    while j < episodes.len()
        invariant
            j <= episodes@.len(),
            forall|m: int| 0 <= m < j ==> (#[trigger] episodes@[m]).0 != key,
        decreases episodes@.len() - j,
    {
        if episodes[j].0 == key {
            return Some(j);
        }
        j = j + 1;
    }
    None
}

} // verus!
