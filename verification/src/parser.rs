use crate::err::Error;
use crate::text::{chars_to_string, str_to_chars};
use vstd::prelude::*;
use vstd::string::StringExecFns;

verus! {

/// Whether `needle` occurs in `s` at position `i`.
pub open spec fn matches_at(s: Seq<char>, needle: Seq<char>, i: int) -> bool {
    0 <= i && i + needle.len() <= s.len() && s.subrange(i, i + needle.len()) == needle
}

/// Whether `needle` occurs anywhere in `s`.
pub open spec fn contains_sub(s: Seq<char>, needle: Seq<char>) -> bool {
    exists|i: int| matches_at(s, needle, i)
}

/// `s` from position `from` on, with every occurrence of `needle` replaced
/// by `to`, scanning left to right.
pub open spec fn replace_from(s: Seq<char>, needle: Seq<char>, to: Seq<char>, from: int) -> Seq<
    char,
>
    decreases s.len() - from,
{
    if needle.len() == 0 || from < 0 {
        s.subrange(if from < 0 { 0 } else { from }, s.len() as int)
    } else if from >= s.len() {
        Seq::empty()
    } else if matches_at(s, needle, from) {
        to + replace_from(s, needle, to, from + needle.len() as int)
    } else {
        seq![s[from]] + replace_from(s, needle, to, from + 1)
    }
}

/// `s` with every occurrence of `needle` replaced by `to`.
pub open spec fn replace_all(s: Seq<char>, needle: Seq<char>, to: Seq<char>) -> Seq<char> {
    replace_from(s, needle, to, 0)
}

/// Executable occurrence test at one position.
fn matches_at_exec(s: &Vec<char>, needle: &Vec<char>, i: usize) -> (r: bool)
    requires
        i + needle@.len() <= s@.len(),
    ensures
        r == matches_at(s@, needle@, i as int),
{
    let slen = s.len();
    let mut k: usize = 0;
    while k < needle.len()
        invariant
            i + needle@.len() <= s@.len(),
            slen == s@.len(),
            k <= needle@.len(),
            forall|m: int| 0 <= m < k ==> s@[i + m] == needle@[m],
        decreases needle@.len() - k,
    {
        if s[i + k] != needle[k] {
            proof {
                assert(s@.subrange(i as int, i + needle@.len())[k as int] != needle@[k as int]);
            }
            return false;
        }
        k = k + 1;
    }
    proof {
        assert(s@.subrange(i as int, i + needle@.len()) =~= needle@);
    }
    true
}

/// Executable substring test.
pub fn contains_chars(s: &Vec<char>, needle: &Vec<char>) -> (r: bool)
    ensures
        r == contains_sub(s@, needle@),
{
    if needle.len() > s.len() {
        proof {
            assert(forall|i: int| !matches_at(s@, needle@, i));
        }
        return false;
    }
    if needle.len() == 0 {
        proof {
            assert(s@.subrange(0, 0) =~= needle@);
            assert(matches_at(s@, needle@, 0));
        }
        return true;
    }
    let slen = s.len();
    let limit = slen - needle.len();
    let mut i: usize = 0;
    while i <= limit
        invariant
            0 < needle@.len() <= s@.len(),
            slen == s@.len(),
            limit == s@.len() - needle@.len(),
            i <= limit + 1,
            forall|m: int| 0 <= m < i ==> !matches_at(s@, needle@, m),
        decreases limit + 1 - i,
    {
        if matches_at_exec(s, needle, i) {
            return true;
        }
        i = i + 1;
    }
    proof {
        assert(forall|m: int| !matches_at(s@, needle@, m));
    }
    false
}

/// Executable replacement, left to right.
fn replace_chars(s: &Vec<char>, needle: &Vec<char>, to: &Vec<char>) -> (r: Vec<char>)
    requires
        needle@.len() > 0,
    ensures
        r@ == replace_all(s@, needle@, to@),
{
    let mut out: Vec<char> = Vec::new();
    let mut from: usize = 0;
    while from < s.len()
        invariant
            needle@.len() > 0,
            from <= s@.len(),
            replace_all(s@, needle@, to@) == out@ + replace_from(s@, needle@, to@, from as int),
        decreases s@.len() - from,
    {
        if needle.len() <= s.len() - from && matches_at_exec(s, needle, from) {
            out.extend_from_slice(to.as_slice());
            from = from + needle.len();
        } else {
            out.push(s[from]);
            from = from + 1;
        }
        proof {
            assert(out@ + replace_from(s@, needle@, to@, from as int) =~= replace_all(
                s@,
                needle@,
                to@,
            ));
        }
    }
    proof {
        assert(replace_from(s@, needle@, to@, from as int) =~= Seq::<char>::empty());
        assert(out@ + Seq::<char>::empty() =~= out@);
    }
    out
}

/// Whether a pattern is a valid regular expression; what `regex::Regex::new`
/// accepts depends on the pattern alone.
pub uninterp spec fn regex_ok(pattern: Seq<char>) -> bool;

/// The title and episode captures the regex engine produces for a pattern on
/// a text: a function of the two strings alone.
pub uninterp spec fn custom_caps(pattern: Seq<char>, text: Seq<char>) -> Option<
    (Seq<char>, Seq<char>),
>;

/// Relies on `regex::Regex::new`: it accepts or rejects a pattern
/// deterministically.
#[verifier::external_body]
fn regex_compiles(pattern: &str) -> (r: bool)
    ensures
        r == regex_ok(pattern@),
{
    regex::Regex::new(pattern).is_ok()
}

/// Relies on `regex::Regex::new`, `Regex::captures`, `Captures::name` and
/// `Match::as_str`: for a fixed pattern, the engine's leftmost match and its
/// `title` and `episode` captures are a function of the haystack alone.
#[verifier::external_body]
fn regex_capture_title_episode(pattern: &str, text: &str) -> (r: Option<(String, String)>)
    requires
        regex_ok(pattern@),
    ensures
        r matches Some(te) ==> custom_caps(pattern@, text@) == Some((te.0@, te.1@)),
        r is None ==> custom_caps(pattern@, text@) is None,
{
    let re = regex::Regex::new(pattern).ok()?;
    let caps = re.captures(text)?;
    let title = caps.name("title")?.as_str().to_owned();
    let episode = caps.name("episode")?.as_str().to_owned();
    Some((title, episode))
}

/// How episode filenames are matched: the built-in convention, or a custom
/// regular expression with `title` and `episode` named groups.
#[derive(Debug)]
pub struct EpisodeMatcher {
    pattern: Option<String>,
}

impl EpisodeMatcher {
    /// The custom pattern, if one is set; `None` is the built-in matcher.
    pub closed spec fn spec_pattern(self) -> Option<Seq<char>> {
        match self.pattern {
            Some(p) => Some(p@),
            None => None,
        }
    }

    /// A stored custom pattern is always a valid regular expression.
    #[verifier::type_invariant]
    pub closed spec fn inv(self) -> bool {
        match self.pattern {
            Some(p) => regex_ok(p@),
            None => true,
        }
    }

    /// The built-in matcher.
    pub fn new() -> (r: Self)
        ensures
            r.spec_pattern() is None,
    {
        EpisodeMatcher { pattern: None }
    }

    /// A matcher from a full regular expression. The pattern must contain the
    /// named groups `title` and `episode` and must compile.
    pub fn from_pattern(pattern: String) -> (r: Result<Self, Error>)
        ensures
            r matches Ok(m) ==> m.spec_pattern() == Some(pattern@) && regex_ok(pattern@),
            r matches Err(e) ==> {
                &&& e is MissingEpisodeMatcherGroup || e is Regex
                &&& (e matches Error::MissingEpisodeMatcherGroup { group } ==> !contains_sub(
                    pattern@,
                    group_needle(group@),
                ))
                &&& (e is Regex ==> !regex_ok(pattern@))
            },
            (contains_sub(pattern@, "(?P<title>"@) && contains_sub(pattern@, "(?P<episode>"@)
                && regex_ok(pattern@)) <==> r is Ok,
    {
        let title_needle = str_to_chars("(?P<title>");
        let episode_needle = str_to_chars("(?P<episode>");
        let pattern_chars = str_to_chars(pattern.as_str());
        if !contains_chars(&pattern_chars, &title_needle) {
            proof {
                reveal_strlit("title");
                reveal_strlit("episode");
            }
            return Err(Error::MissingEpisodeMatcherGroup { group: title_group_name() });
        }
        if !contains_chars(&pattern_chars, &episode_needle) {
            proof {
                reveal_strlit("title");
                reveal_strlit("episode");
                assert("episode"@.len() == 7);
                assert("title"@.len() == 5);
                assert("episode"@ != "title"@);
                assert(group_needle("episode"@) == "(?P<episode>"@);
            }
            return Err(Error::MissingEpisodeMatcherGroup { group: episode_group_name() });
        }
        if !regex_compiles(pattern.as_str()) {
            return Err(Error::Regex { matcher: pattern });
        }
        Ok(EpisodeMatcher { pattern: Some(pattern) })
    }

    /// A matcher duplicate, equal to this one.
    pub fn duplicate(&self) -> (r: Self)
        ensures
            r.spec_pattern() == self.spec_pattern(),
    {
        proof {
            use_type_invariant(self);
        }
        match &self.pattern {
            Some(p) => EpisodeMatcher { pattern: Some(crate::text::clone_string(p)) },
            None => EpisodeMatcher { pattern: None },
        }
    }
}

/// The needle that must occur in a custom pattern for a named group.
pub open spec fn group_needle(group: Seq<char>) -> Seq<char> {
    if group == "title"@ {
        "(?P<title>"@
    } else {
        "(?P<episode>"@
    }
}

fn title_group_name() -> (r: String)
    ensures
        r@ == "title"@,
{
    proof {
        reveal_strlit("title");
    }
    String::from_str("title")
}

fn episode_group_name() -> (r: String)
    ensures
        r@ == "episode"@,
{
    proof {
        reveal_strlit("episode");
    }
    String::from_str("episode")
}

/// Build a matcher from a user pattern in which `{title}` and `{episode}`
/// stand for the named capture groups.
pub fn episode_matcher_with_pattern(pattern: &str) -> (r: Result<EpisodeMatcher, Error>)
    ensures
        r matches Ok(m) ==> m.spec_pattern() == Some(substituted_pattern(pattern@)),
        r is Ok <==> (contains_sub(substituted_pattern(pattern@), "(?P<title>"@) && contains_sub(
            substituted_pattern(pattern@),
            "(?P<episode>"@,
        ) && regex_ok(substituted_pattern(pattern@))),
        r matches Err(e) ==> {
            &&& e is MissingEpisodeMatcherGroup || e is Regex
            &&& (e matches Error::MissingEpisodeMatcherGroup { group } ==> !contains_sub(
                substituted_pattern(pattern@),
                group_needle(group@),
            ))
            &&& (e is Regex ==> !regex_ok(substituted_pattern(pattern@)))
        },
{
    let pattern_chars = str_to_chars(pattern);
    let title_needle = str_to_chars("{title}");
    let title_to = str_to_chars("(?P<title>.+)");
    let episode_needle = str_to_chars("{episode}");
    let episode_to = str_to_chars("(?P<episode>\\d+)");
    proof {
        reveal_strlit("{title}");
        reveal_strlit("{episode}");
    }
    let step1 = replace_chars(&pattern_chars, &title_needle, &title_to);
    let step2 = replace_chars(&step1, &episode_needle, &episode_to);
    EpisodeMatcher::from_pattern(chars_to_string(&step2))
}

/// The user pattern with both group placeholders substituted.
pub open spec fn substituted_pattern(pattern: Seq<char>) -> Seq<char> {
    replace_all(replace_all(pattern, "{title}"@, "(?P<title>.+)"@), "{episode}"@, "(?P<episode>\\d+)"@)
}

/// The characters that may follow an episode number: an opening parenthesis
/// or bracket, or the extension dot.
pub open spec fn is_boundary(c: char) -> bool {
    c == '(' || c == '[' || c == '.'
}

/// Filenames often use underscores for spaces; they are replaced before
/// matching.
pub open spec fn underscore_to_space(s: Seq<char>) -> Seq<char> {
    s.map_values(|c: char| if c == '_' { ' ' } else { c })
}

/// The first non-whitespace position at or after `from`.
pub open spec fn skip_ws(s: Seq<char>, from: int) -> int
    decreases s.len() - from,
{
    if 0 <= from < s.len() && crate::text::is_ws(s[from]) {
        skip_ws(s, from + 1)
    } else {
        from
    }
}

/// The first non-digit position at or after `from`.
pub open spec fn skip_digits(s: Seq<char>, from: int) -> int
    decreases s.len() - from,
{
    if 0 <= from < s.len() && crate::score::is_digit(s[from]) {
        skip_digits(s, from + 1)
    } else {
        from
    }
}

/// The first position of `c` at or after `from`, if any.
pub open spec fn find_char(s: Seq<char>, c: char, from: int) -> Option<int>
    decreases s.len() - from,
{
    if !(0 <= from < s.len()) {
        None
    } else if s[from] == c {
        Some(from)
    } else {
        find_char(s, c, from + 1)
    }
}

/// Where the title text may start: after an optional leading bracketed group
/// and the whitespace that follows it.
pub open spec fn title_start(u: Seq<char>) -> int {
    if u.len() > 0 && u[0] == '[' {
        match find_char(u, ']', 0) {
            Some(j) => skip_ws(u, j + 1),
            None => 0,
        }
    } else {
        0
    }
}

/// Walks whitespace backwards from `from`, not moving below `st`.
pub open spec fn skip_ws_back(s: Seq<char>, st: int, from: int) -> int
    decreases from,
{
    if st < from <= s.len() && from >= 1 && crate::text::is_ws(s[from - 1]) {
        skip_ws_back(s, st, from - 1)
    } else {
        from
    }
}

/// Where the episode separator begins, walking backwards from the digit
/// position `i`: optional whitespace, one optional dash, optional whitespace.
pub open spec fn sep_start(s: Seq<char>, st: int, i: int) -> int {
    let a = skip_ws_back(s, st, i);
    let b = if a > st && a >= 1 && a <= s.len() && s[a - 1] == '-' {
        a - 1
    } else {
        a
    };
    skip_ws_back(s, st, b)
}

/// Whether position `i` starts an episode-number match: a digit run whose end
/// is followed (after optional whitespace) by a boundary character, with a
/// non-empty title before the separator.
pub open spec fn qualifies(u: Seq<char>, st: int, i: int) -> bool {
    &&& st <= i < u.len()
    &&& crate::score::is_digit(u[i])
    &&& {
        let e = skip_ws(u, skip_digits(u, i));
        e < u.len() && is_boundary(u[e])
    }
    &&& sep_start(u, st, i) > st
}

/// The first qualifying episode position at or after `i`, if any.
pub open spec fn first_qual(u: Seq<char>, st: int, i: int) -> Option<int>
    decreases u.len() - i,
{
    if i >= u.len() {
        None
    } else if qualifies(u, st, i) {
        Some(i)
    } else {
        first_qual(u, st, i + 1)
    }
}

/// The raw title region and digit run the built-in matcher captures.
pub open spec fn default_capture(s: Seq<char>) -> Option<(Seq<char>, Seq<char>)> {
    let u = underscore_to_space(s);
    let st = title_start(u);
    match first_qual(u, st, st) {
        Some(i) => Some(
            (u.subrange(st, sep_start(u, st, i)), u.subrange(i, skip_digits(u, i))),
        ),
        None => None,
    }
}

/// Release tags that are stripped from the end of a title.
pub open spec fn is_tag(tok: Seq<char>) -> bool {
    ||| crate::text::lower_seq(tok) == "1080p"@
    ||| crate::text::lower_seq(tok) == "720p"@
    ||| crate::text::lower_seq(tok) == "480p"@
    ||| crate::text::lower_seq(tok) == "hevc"@
    ||| crate::text::lower_seq(tok) == "x264"@
    ||| crate::text::lower_seq(tok) == "x265"@
}

/// The start of the last whitespace-separated token, walking back from
/// `from`.
pub open spec fn ltstart(t: Seq<char>, from: int) -> int
    decreases from,
{
    if 0 < from <= t.len() && !crate::text::is_ws(t[from - 1]) {
        ltstart(t, from - 1)
    } else {
        from
    }
}

/// Trimming never lengthens a sequence.
pub proof fn lemma_trim_len(t: Seq<char>)
    ensures
        crate::text::trim_spec(t).len() <= t.len(),
    decreases t.len(),
{
    if t.len() == 0 {
    } else if crate::text::is_ws(t[0]) {
        lemma_trim_len(t.drop_first());
    } else if crate::text::is_ws(t.last()) {
        lemma_trim_len(t.drop_last());
    }
}

/// The title with trailing release tags removed, one whole token at a time,
/// trimming whitespace as it goes.
pub open spec fn strip_tags(t: Seq<char>) -> Seq<char>
    decreases t.len(),
    via strip_tags_decreases
{
    let tt = crate::text::trim_spec(t);
    let k = ltstart(tt, tt.len() as int);
    if tt.len() > 0 && 0 < k < tt.len() && is_tag(tt.subrange(k, tt.len() as int)) {
        strip_tags(tt.subrange(0, k))
    } else {
        tt
    }
}

#[via_fn]
proof fn strip_tags_decreases(t: Seq<char>) {
    lemma_trim_len(t);
}

/// What the built-in matcher yields for a filename: the cleaned title and
/// the digit run of the episode number.
pub open spec fn default_capture_clean(s: Seq<char>) -> Option<(Seq<char>, Seq<char>)> {
    match default_capture(s) {
        Some(te) => Some((strip_tags(te.0), te.1)),
        None => None,
    }
}

/// The captures a matcher makes on a filename: cleaned title text and the
/// episode digits.
pub open spec fn capture_spec(m: EpisodeMatcher, name: Seq<char>) -> Option<
    (Seq<char>, Seq<char>),
> {
    match m.spec_pattern() {
        None => default_capture_clean(name),
        Some(p) => match custom_caps(p, name) {
            Some(te) => Some((crate::text::trim_spec(te.0), te.1)),
            None => None,
        },
    }
}

/// The full parse: the captured digits must be a non-empty digit string whose
/// value fits an episode number.
pub open spec fn parse_spec(m: EpisodeMatcher, name: Seq<char>) -> Option<(Seq<char>, u32)> {
    match capture_spec(m, name) {
        Some(te) => if te.1.len() > 0 && crate::score::all_digits(te.1) && crate::score::digits_val(
            te.1,
        ) <= u32::MAX {
            Some((te.0, crate::score::digits_val(te.1) as u32))
        } else {
            None
        },
        None => None,
    }
}

/// The title a successful parse yields.
pub open spec fn parsed_title(m: EpisodeMatcher, name: Seq<char>) -> Seq<char> {
    match parse_spec(m, name) {
        Some(te) => te.0,
        None => Seq::empty(),
    }
}

/// The episode number a successful parse yields.
pub open spec fn parsed_ep(m: EpisodeMatcher, name: Seq<char>) -> u32 {
    match parse_spec(m, name) {
        Some(te) => te.1,
        None => 0,
    }
}

fn is_digit_exec(c: char) -> (r: bool)
    ensures
        r == crate::score::is_digit(c),
{
    '0' <= c && c <= '9'
}

fn is_boundary_exec(c: char) -> (r: bool)
    ensures
        r == is_boundary(c),
{
    c == '(' || c == '[' || c == '.'
}

pub(crate) fn underscore_exec(v: &Vec<char>) -> (r: Vec<char>)
    ensures
        r@ == underscore_to_space(v@),
{
    let mut r: Vec<char> = Vec::new();
    let mut i: usize = 0;
    while i < v.len()
        invariant
            i <= v@.len(),
            r@ == underscore_to_space(v@.subrange(0, i as int)),
        decreases v@.len() - i,
    {
        let c = v[i];
        r.push(if c == '_' { ' ' } else { c });
        proof {
            assert(underscore_to_space(v@.subrange(0, i + 1)) =~= underscore_to_space(
                v@.subrange(0, i as int),
            ).push(if v@[i as int] == '_' { ' ' } else { v@[i as int] }));
        }
        i = i + 1;
    }
    proof {
        assert(v@.subrange(0, v@.len() as int) =~= v@);
    }
    r
}

fn skip_ws_idx(u: &Vec<char>, from: usize) -> (r: usize)
    requires
        from <= u@.len(),
    ensures
        r == skip_ws(u@, from as int),
        from <= r <= u@.len(),
    decreases u@.len() - from,
{
    let mut i = from;
    while i < u.len() && is_ws_exec_local(u[i])
        invariant
            from <= i <= u@.len(),
            skip_ws(u@, from as int) == skip_ws(u@, i as int),
        decreases u@.len() - i,
    {
        i = i + 1;
    }
    i
}

fn is_ws_exec_local(c: char) -> (r: bool)
    ensures
        r == crate::text::is_ws(c),
{
    c == ' ' || c == '\t'
}

fn skip_digits_idx(u: &Vec<char>, from: usize) -> (r: usize)
    requires
        from <= u@.len(),
    ensures
        r == skip_digits(u@, from as int),
        from <= r <= u@.len(),
{
    let mut i = from;
    while i < u.len() && is_digit_exec(u[i])
        invariant
            from <= i <= u@.len(),
            skip_digits(u@, from as int) == skip_digits(u@, i as int),
        decreases u@.len() - i,
    {
        i = i + 1;
    }
    i
}

fn find_char_idx(u: &Vec<char>, c: char, from: usize) -> (r: Option<usize>)
    requires
        from <= u@.len(),
    ensures
        match r {
            Some(j) => from <= j < u@.len() && find_char(u@, c, from as int) == Some(j as int),
            None => find_char(u@, c, from as int) is None,
        },
{
    let mut i = from;
    while i < u.len()
        invariant
            from <= i <= u@.len(),
            find_char(u@, c, from as int) == find_char(u@, c, i as int),
        decreases u@.len() - i,
    {
        if u[i] == c {
            return Some(i);
        }
        i = i + 1;
    }
    None
}

fn skip_ws_back_idx(u: &Vec<char>, st: usize, from: usize) -> (r: usize)
    requires
        st <= from <= u@.len(),
    ensures
        r == skip_ws_back(u@, st as int, from as int),
        st <= r <= from,
{
    let mut i = from;
    while i > st && is_ws_exec_local(u[i - 1])
        invariant
            st <= i <= from <= u@.len(),
            skip_ws_back(u@, st as int, from as int) == skip_ws_back(u@, st as int, i as int),
        decreases i,
    {
        i = i - 1;
    }
    i
}

fn sep_start_idx(u: &Vec<char>, st: usize, i: usize) -> (r: usize)
    requires
        st <= i <= u@.len(),
    ensures
        r == sep_start(u@, st as int, i as int),
        st <= r <= i,
{
    let a = skip_ws_back_idx(u, st, i);
    let b = if a > st && u[a - 1] == '-' {
        a - 1
    } else {
        a
    };
    skip_ws_back_idx(u, st, b)
}

fn qualifies_exec(u: &Vec<char>, st: usize, i: usize) -> (r: bool)
    requires
        st <= i < u@.len(),
    ensures
        r == qualifies(u@, st as int, i as int),
{
    if !is_digit_exec(u[i]) {
        return false;
    }
    let e = skip_ws_idx(u, skip_digits_idx(u, i));
    if !(e < u.len() && is_boundary_exec(u[e])) {
        return false;
    }
    sep_start_idx(u, st, i) > st
}

fn first_qual_idx(u: &Vec<char>, st: usize) -> (r: Option<usize>)
    requires
        st <= u@.len(),
    ensures
        match r {
            Some(i) => st <= i < u@.len() && first_qual(u@, st as int, st as int) == Some(i as int),
            None => first_qual(u@, st as int, st as int) is None,
        },
{
    let mut i = st;
    while i < u.len()
        invariant
            st <= i <= u@.len(),
            first_qual(u@, st as int, st as int) == first_qual(u@, st as int, i as int),
        decreases u@.len() - i,
    {
        if qualifies_exec(u, st, i) {
            return Some(i);
        }
        i = i + 1;
    }
    None
}

pub(crate) fn title_start_idx(u: &Vec<char>) -> (r: usize)
    ensures
        r == title_start(u@),
        r <= u@.len(),
{
    if u.len() > 0 && u[0] == '[' {
        match find_char_idx(u, ']', 0) {
            Some(j) => skip_ws_idx(u, j + 1),
            None => 0,
        }
    } else {
        0
    }
}

/// The copy of `v[lo..hi]`.
pub(crate) fn copy_range(v: &Vec<char>, lo: usize, hi: usize) -> (r: Vec<char>)
    requires
        lo <= hi <= v@.len(),
    ensures
        r@ == v@.subrange(lo as int, hi as int),
{
    let mut r: Vec<char> = Vec::new();
    let mut i = lo;
    while i < hi
        invariant
            lo <= i <= hi <= v@.len(),
            r@ == v@.subrange(lo as int, i as int),
        decreases hi - i,
    {
        r.push(v[i]);
        proof {
            assert(v@.subrange(lo as int, i + 1) =~= v@.subrange(lo as int, i as int).push(
                v@[i as int],
            ));
        }
        i = i + 1;
    }
    r
}

fn is_tag_exec(tok: &Vec<char>) -> (r: bool)
    ensures
        r == is_tag(tok@),
{
    let low = crate::text::lower_chars(tok);
    let t1 = str_to_chars("1080p");
    let t2 = str_to_chars("720p");
    let t3 = str_to_chars("480p");
    let t4 = str_to_chars("hevc");
    let t5 = str_to_chars("x264");
    let t6 = str_to_chars("x265");
    crate::text::eq_chars(&low, &t1) || crate::text::eq_chars(&low, &t2) || crate::text::eq_chars(
        &low,
        &t3,
    ) || crate::text::eq_chars(&low, &t4) || crate::text::eq_chars(&low, &t5)
        || crate::text::eq_chars(&low, &t6)
}

fn ltstart_idx(t: &Vec<char>, from: usize) -> (r: usize)
    requires
        from <= t@.len(),
    ensures
        r == ltstart(t@, from as int),
        r <= from,
{
    let mut k = from;
    while k > 0 && !is_ws_exec_local(t[k - 1])
        invariant
            k <= from <= t@.len(),
            ltstart(t@, from as int) == ltstart(t@, k as int),
        decreases k,
    {
        k = k - 1;
    }
    k
}

pub(crate) fn strip_tags_exec(t: &Vec<char>) -> (r: Vec<char>)
    ensures
        r@ == strip_tags(t@),
{
    let ghost orig = t@;
    let mut cur = copy_range(t, 0, t.len());
    proof {
        assert(cur@ =~= orig);
    }
    loop
        invariant
            orig == t@,
            strip_tags(cur@) == strip_tags(orig),
        decreases cur@.len(),
    {
        let mut tt = crate::text::trim_chars(&cur);
        let k = ltstart_idx(&tt, tt.len());
        if tt.len() > 0 && k > 0 && k < tt.len() {
            let tok = copy_range(&tt, k, tt.len());
            if is_tag_exec(&tok) {
                proof {
                    lemma_trim_len(cur@);
                }
                tt.truncate(k);
                cur = tt;
                continue ;
            }
        }
        return tt;
    }
}

/// All characters are digits and there is at least one.
fn all_digits_exec(v: &Vec<char>) -> (r: bool)
    ensures
        r == (v@.len() > 0 && crate::score::all_digits(v@)),
{
    if v.len() == 0 {
        return false;
    }
    let mut i: usize = 0;
    while i < v.len()
        invariant
            0 < v@.len(),
            i <= v@.len(),
            forall|m: int| 0 <= m < i ==> crate::score::is_digit(#[trigger] v@[m]),
        decreases v@.len() - i,
    {
        if !is_digit_exec(v[i]) {
            return false;
        }
        i = i + 1;
    }
    true
}

/// A found first qualifying position does qualify.
proof fn lemma_first_qual_qualifies(u: Seq<char>, st: int, from: int, i: int)
    requires
        first_qual(u, st, from) == Some(i),
    ensures
        qualifies(u, st, i),
    decreases u.len() - from,
{
    if from >= u.len() {
    } else if qualifies(u, st, from) {
    } else {
        lemma_first_qual_qualifies(u, st, from + 1, i);
    }
}

/// A digit run never ends before it starts.
proof fn lemma_skip_digits_ge(s: Seq<char>, from: int)
    ensures
        skip_digits(s, from) >= from,
    decreases s.len() - from,
{
    if 0 <= from < s.len() && crate::score::is_digit(s[from]) {
        lemma_skip_digits_ge(s, from + 1);
    }
}

/// Every character of a digit run is a digit.
proof fn lemma_skip_digits_range(s: Seq<char>, from: int)
    ensures
        forall|m: int|
            from <= m < skip_digits(s, from) ==> crate::score::is_digit(#[trigger] s[m]),
    decreases s.len() - from,
{
    if 0 <= from < s.len() && crate::score::is_digit(s[from]) {
        lemma_skip_digits_range(s, from + 1);
    }
}

/// The number an episode digit run denotes, if it fits.
fn parse_ep_digits(d: &Vec<char>) -> (r: Option<u32>)
    requires
        d@.len() > 0,
        crate::score::all_digits(d@),
    ensures
        r matches Some(v) ==> crate::score::digits_val(d@) == v,
        r is Some <==> crate::score::digits_val(d@) <= u32::MAX,
{
    let cap: u64 = 0x1_0000_0000;
    let mut acc: u64 = 0;
    let mut i: usize = 0;
    while i < d.len()
        invariant
            0 < d@.len(),
            crate::score::all_digits(d@),
            i <= d@.len(),
            cap == 0x1_0000_0000,
            acc <= cap,
            crate::score::digits_val(d@.subrange(0, i as int)) <= u32::MAX ==> acc
                == crate::score::digits_val(d@.subrange(0, i as int)),
            crate::score::digits_val(d@.subrange(0, i as int)) > u32::MAX <==> acc == cap,
            crate::score::digits_val(d@.subrange(0, i as int)) >= 0,
        decreases d@.len() - i,
    {
        let c = d[i];
        proof {
            assert(crate::score::is_digit(d@[i as int]));
            assert(d@.subrange(0, i + 1).drop_last() =~= d@.subrange(0, i as int));
            assert(d@.subrange(0, i + 1).last() == d@[i as int]);
        }
        let dg: u64 = (c as u64) - ('0' as u64);
        let next: u64 = acc * 10 + dg;
        if next > 0xFFFF_FFFF {
            acc = cap;
        } else {
            acc = next;
        }
        i = i + 1;
    }
    proof {
        assert(d@.subrange(0, d@.len() as int) =~= d@);
    }
    if acc <= 0xFFFF_FFFF {
        Some(acc as u32)
    } else {
        None
    }
}

impl EpisodeMatcher {
    /// Parse a filename into its series title and episode number.
    pub fn parse(&self, filename: &str) -> (r: Result<(String, u32), Error>)
        ensures
            r matches Ok(te) ==> parse_spec(*self, filename@) == Some((te.0@, te.1)),
            r is Ok <==> parse_spec(*self, filename@) is Some,
            r matches Err(e) ==> {
                &&& capture_spec(*self, filename@) is None ==> e is NoEpMatches
                &&& capture_spec(*self, filename@) is Some ==> e is ExpectedEpNumber
            },
    {
        proof {
            use_type_invariant(self);
        }
        match &self.pattern {
            None => {
                let chars = str_to_chars(filename);
                let u = underscore_exec(&chars);
                let st = title_start_idx(&u);
                match first_qual_idx(&u, st) {
                    None => Err(Error::NoEpMatches { name: filename.to_owned() }),
                    Some(i) => {
                        let se = sep_start_idx(&u, st, i);
                        let de = skip_digits_idx(&u, i);
                        proof {
                            lemma_first_qual_qualifies(u@, st as int, st as int, i as int);
                            lemma_skip_digits_range(u@, i as int);
                            lemma_skip_digits_ge(u@, i + 1);
                            assert(crate::score::is_digit(u@[i as int]));
                            assert(skip_digits(u@, i as int) == skip_digits(u@, i + 1));
                            assert(de > i);
                        }
                        let traw = copy_range(&u, st, se);
                        let title = strip_tags_exec(&traw);
                        let digits = copy_range(&u, i, de);
                        proof {
                            assert forall|m: int| 0 <= m < digits@.len() implies crate::score::is_digit(
                                #[trigger] digits@[m],
                            ) by {
                                assert(digits@[m] == u@[i + m]);
                            }
                            assert(crate::score::all_digits(digits@));
                        }
                        match parse_ep_digits(&digits) {
                            Some(ep) => Ok((chars_to_string(&title), ep)),
                            None => Err(Error::ExpectedEpNumber { name: filename.to_owned() }),
                        }
                    },
                }
            },
            Some(p) => {
                match regex_capture_title_episode(p.as_str(), filename) {
                    None => Err(Error::NoEpMatches { name: filename.to_owned() }),
                    Some(te) => {
                        let tchars = str_to_chars(te.0.as_str());
                        let trimmed = crate::text::trim_chars(&tchars);
                        let echars = str_to_chars(te.1.as_str());
                        if !all_digits_exec(&echars) {
                            return Err(Error::ExpectedEpNumber { name: filename.to_owned() });
                        }
                        match parse_ep_digits(&echars) {
                            Some(ep) => Ok((chars_to_string(&trimmed), ep)),
                            None => Err(Error::ExpectedEpNumber { name: filename.to_owned() }),
                        }
                    },
                }
            },
        }
    }
}

/// What a matcher captures and parses depends only on its pattern.
pub proof fn lemma_parse_congruent(m1: EpisodeMatcher, m2: EpisodeMatcher, name: Seq<char>)
    requires
        m1.spec_pattern() == m2.spec_pattern(),
    ensures
        capture_spec(m1, name) == capture_spec(m2, name),
        parse_spec(m1, name) == parse_spec(m2, name),
        parsed_title(m1, name) == parsed_title(m2, name),
        parsed_ep(m1, name) == parsed_ep(m2, name),
{
}

} // verus!
