//! Include and exclude glob patterns: which relative file paths of a folder
//! are embedded.

use vstd::prelude::*;

verus! {

/// What globset answers for the glob `pattern` and the candidate `path`,
/// with the builder's default options: `None` when the pattern does not
/// parse or its regular expression cannot be built (for instance, alternates
/// nested deeper than the regex parser allows), else whether the path
/// matches. It stands for globset's behaviour on the target that this
/// library is compiled for (globset reads `\` as an escape on Unix and as a
/// separator elsewhere).
pub uninterp spec fn glob_match(pattern: Seq<char>, path: Seq<char>) -> Option<bool>;

/// A pattern that globset parses: it then answers every candidate path.
pub open spec fn glob_valid(pattern: Seq<char>) -> bool {
    forall|path: Seq<char>| #[trigger] glob_match(pattern, path) is Some
}

/// `pattern` parses and `path` matches it.
pub open spec fn glob_hit(pattern: Seq<char>, path: Seq<char>) -> bool {
    glob_match(pattern, path) == Some(true)
}

/// Calls `globset::Glob::new(pattern)`, adds the glob to a
/// `globset::GlobSetBuilder`, builds the set, which reports a regular
/// expression that cannot be built as an error rather than a panic, and asks
/// the set `is_match(path)`. Claimed: the outcome is
/// `glob_match(pattern, path)`, and whether the pattern is accepted does not
/// depend on the path (neither `Glob::new` nor `build` sees it).
#[verifier::external_body]
fn glob_is_match(pattern: &str, path: &str) -> (r: Option<bool>)
    ensures
        r == glob_match(pattern@, path@),
        r is Some <==> glob_valid(pattern@),
{
    let glob = match globset::Glob::new(pattern) {
        Ok(glob) => glob,
        Err(_) => return None,
    };
    match globset::GlobSetBuilder::new().add(glob).build() {
        Ok(set) => Some(set.is_match(path)),
        Err(_) => None,
    }
}

/// The string views of a sequence of string slices.
pub open spec fn str_views(s: Seq<&str>) -> Seq<Seq<char>> {
    s.map_values(|p: &str| p@)
}

/// The string views of a sequence of owned strings.
pub open spec fn string_views(s: Seq<String>) -> Seq<Seq<char>> {
    s.map_values(|p: String| p@)
}

/// Walks `patterns` in order: `Some(true)` at the first one that `path`
/// matches, `None` at a pattern that does not parse before any match, and
/// `Some(false)` when the walk ends without a match.
pub open spec fn first_hit(patterns: Seq<Seq<char>>, path: Seq<char>) -> Option<bool>
    decreases patterns.len(),
{
    if patterns.len() == 0 {
        Some(false)
    } else {
        match glob_match(patterns[0], path) {
            None => None,
            Some(true) => Some(true),
            Some(false) => first_hit(patterns.drop_first(), path),
        }
    }
}

/// Whether `path` is embedded under the given include and exclude patterns:
/// excludes are tried first and any hit rejects the path; with no includes
/// the path is then accepted, otherwise it must hit an include. `None` where
/// the walk reaches a pattern that does not parse.
pub open spec fn inclusion(
    path: Seq<char>,
    includes: Seq<Seq<char>>,
    excludes: Seq<Seq<char>>,
) -> Option<bool> {
    match first_hit(excludes, path) {
        None => None,
        Some(true) => Some(false),
        Some(false) => if includes.len() == 0 {
            Some(true)
        } else {
            first_hit(includes, path)
        },
    }
}

/// Every pattern parses.
pub open spec fn all_valid(patterns: Seq<Seq<char>>) -> bool {
    forall|i: int| 0 <= i < patterns.len() ==> glob_valid(#[trigger] patterns[i])
}

/// Some pattern of the sequence matches `path`.
pub open spec fn any_hit(patterns: Seq<Seq<char>>, path: Seq<char>) -> bool {
    exists|i: int| 0 <= i < patterns.len() && glob_hit(#[trigger] patterns[i], path)
}

/// Walks the patterns in order, in the same way as `first_hit`.
fn walk_patterns(patterns: &[&str], path: &str) -> (r: Option<bool>)
    ensures
        r == first_hit(str_views(patterns@), path@),
{
    let ghost views = str_views(patterns@);
    assert(views.skip(0) =~= views);
    let mut i: usize = 0;
    while i < patterns.len()
        invariant
            i <= patterns@.len(),
            views == str_views(patterns@),
            first_hit(views, path@) == first_hit(views.skip(i as int), path@),
        decreases patterns@.len() - i,
    {
        let pattern: &str = patterns[i];
        assert(views.skip(i as int)[0] == pattern@);
        assert(views.skip(i as int).drop_first() =~= views.skip(i + 1));
        match glob_is_match(pattern, path) {
            Some(true) => {
                return Some(true);
            },
            Some(false) => {},
            None => {
                return None;
            },
        }
        i = i + 1;
    }
    assert(views.skip(i as int).len() == 0);
    Some(false)
}

/// Whether the file at the relative path `rel_path` is embedded, or `None`
/// where the walk reaches a pattern that globset does not accept: the
/// exclude patterns are walked first and a hit leaves the path out; then,
/// with no include patterns the path is embedded, and otherwise it must hit
/// one of them. Patterns are compiled as the walk reaches them, so a bad
/// pattern after a decisive hit is never looked at.
pub fn path_inclusion(rel_path: &str, includes: &[&str], excludes: &[&str]) -> (r: Option<bool>)
    ensures
        r == inclusion(rel_path@, str_views(includes@), str_views(excludes@)),
{
    match walk_patterns(excludes, rel_path) {
        None => None,
        Some(true) => Some(false),
        Some(false) => if includes.len() == 0 {
            Some(true)
        } else {
            walk_patterns(includes, rel_path)
        },
    }
}

/// Whether the file at the relative path `rel_path` is embedded when glob
/// filtering is switched off: every path is, whatever patterns are given.
pub fn is_path_included_unfiltered(rel_path: &str, includes: &[&str], excludes: &[&str]) -> (r: bool)
    ensures
        r,
{
    true
}

/// Whether the file at the relative path `rel_path` is embedded (see
/// `path_inclusion`). A pattern that globset does not accept is an error
/// where the walk reaches it, so `requires` leaves such inputs out.
pub fn is_path_included(rel_path: &str, includes: &[&str], excludes: &[&str]) -> (r: bool)
    requires
        inclusion(rel_path@, str_views(includes@), str_views(excludes@)) is Some,
    ensures
        Some(r) == inclusion(rel_path@, str_views(includes@), str_views(excludes@)),
{
    match path_inclusion(rel_path, includes, excludes) {
        Some(b) => b,
        None => {
            assert(false);
            false
        },
    }
}

/// On patterns that all answer `path`, the walk finds a hit exactly when
/// some pattern matches.
proof fn lemma_first_hit_answers(patterns: Seq<Seq<char>>, path: Seq<char>)
    requires
        forall|i: int| 0 <= i < patterns.len() ==> (#[trigger] glob_match(patterns[i], path)) is Some,
    ensures
        first_hit(patterns, path) == Some(any_hit(patterns, path)),
    decreases patterns.len(),
{
    if patterns.len() > 0 {
        let rest = patterns.drop_first();
        assert forall|i: int| 0 <= i < rest.len() implies (#[trigger] glob_match(rest[i], path)) is Some by {
            assert(rest[i] == patterns[i + 1]);
        }
        lemma_first_hit_answers(rest, path);
        assert(glob_match(patterns[0], path) is Some);
        if any_hit(rest, path) {
            let i = choose|i: int| 0 <= i < rest.len() && glob_hit(#[trigger] rest[i], path);
            assert(patterns[i + 1] == rest[i]);
        }
        if any_hit(patterns, path) && !glob_hit(patterns[0], path) {
            let i = choose|i: int| 0 <= i < patterns.len() && glob_hit(#[trigger] patterns[i], path);
            assert(rest[i - 1] == patterns[i]);
        }
    }
}

/// Exclude patterns take priority over include patterns: when every
/// pattern parses, a path is embedded exactly when it hits no exclude pattern
/// and either there are no include patterns or it hits one of them.
pub proof fn lemma_exclude_wins(path: Seq<char>, includes: Seq<Seq<char>>, excludes: Seq<Seq<char>>)
    requires
        all_valid(includes),
        all_valid(excludes),
    ensures
        inclusion(path, includes, excludes) == Some(
            !any_hit(excludes, path) && (includes.len() == 0 || any_hit(includes, path)),
        ),
{
    assert forall|i: int| 0 <= i < includes.len() implies (#[trigger] glob_match(includes[i], path)) is Some by {
        assert(glob_valid(includes[i]));
    }
    assert forall|i: int| 0 <= i < excludes.len() implies (#[trigger] glob_match(excludes[i], path)) is Some by {
        assert(glob_valid(excludes[i]));
    }
    lemma_first_hit_answers(includes, path);
    lemma_first_hit_answers(excludes, path);
}

/// A set of include and exclude patterns that all parse, so that asking it
/// about any path has an answer.
pub struct PathFilter {
    includes: Vec<String>,
    excludes: Vec<String>,
}

impl PathFilter {
    #[verifier::type_invariant]
    spec fn patterns_parse(self) -> bool {
        &&& all_valid(string_views(self.includes@))
        &&& all_valid(string_views(self.excludes@))
    }

    /// The include patterns.
    pub closed spec fn include_patterns(self) -> Seq<Seq<char>> {
        string_views(self.includes@)
    }

    /// The exclude patterns.
    pub closed spec fn exclude_patterns(self) -> Seq<Seq<char>> {
        string_views(self.excludes@)
    }

    /// Whether the filter embeds `path`.
    pub open spec fn includes_path(self, path: Seq<char>) -> bool {
        inclusion(path, self.include_patterns(), self.exclude_patterns()) == Some(true)
    }

    /// Builds the filter, or `None` when some pattern does not parse.
    pub fn new(includes: Vec<String>, excludes: Vec<String>) -> (r: Option<PathFilter>)
        ensures
            r is Some <==> (all_valid(string_views(includes@)) && all_valid(string_views(excludes@))),
            r matches Some(f) ==> f.include_patterns() == string_views(includes@)
                && f.exclude_patterns() == string_views(excludes@),
    {
        if !all_parse(&includes) || !all_parse(&excludes) {
            return None;
        }
        Some(PathFilter { includes, excludes })
    }

    /// Whether the file at the relative path `rel_path` is embedded under
    /// this filter's patterns (see `is_path_included`).
    pub fn is_included(&self, rel_path: &str) -> (r: bool)
        ensures
            Some(r) == inclusion(rel_path@, self.include_patterns(), self.exclude_patterns()),
            r == self.includes_path(rel_path@),
    {
        proof {
            use_type_invariant(self);
        }
        let includes = as_strs(&self.includes);
        let excludes = as_strs(&self.excludes);
        proof {
            lemma_exclude_wins(rel_path@, self.include_patterns(), self.exclude_patterns());
        }
        is_path_included(rel_path, includes.as_slice(), excludes.as_slice())
    }
}

/// Whether every pattern of the list parses.
fn all_parse(patterns: &Vec<String>) -> (r: bool)
    ensures
        r == all_valid(string_views(patterns@)),
{
    let ghost views = string_views(patterns@);
    let mut i: usize = 0;
    while i < patterns.len()
        invariant
            i <= patterns@.len(),
            views == string_views(patterns@),
            forall|j: int| 0 <= j < i ==> glob_valid(#[trigger] views[j]),
        decreases patterns@.len() - i,
    {
        if glob_is_match(patterns[i].as_str(), "").is_none() {
            assert(!glob_valid(views[i as int]));
            return false;
        }
        i = i + 1;
    }
    true
}

/// Borrows each string of the list as a string slice.
fn as_strs(strings: &Vec<String>) -> (r: Vec<&str>)
    ensures
        str_views(r@) == string_views(strings@),
{
    let mut r: Vec<&str> = Vec::new();
    let mut i: usize = 0;
    while i < strings.len()
        invariant
            i <= strings@.len(),
            r@.len() == i,
            forall|j: int| 0 <= j < i ==> (#[trigger] r@[j])@ == strings@[j]@,
        decreases strings@.len() - i,
    {
        r.push(strings[i].as_str());
        i = i + 1;
    }
    assert(str_views(r@) =~= string_views(strings@));
    r
}

} // verus!
