//! Filter rules and size thresholds.

use vstd::prelude::*;

verus! {

/// Whether `pattern` compiles as a regular expression.
pub uninterp spec fn pattern_compiles(pattern: Seq<char>) -> bool;

/// Whether the regular expression `pattern` matches somewhere in `text`
/// (an unanchored search).
pub uninterp spec fn pattern_finds(pattern: Seq<char>, text: Seq<char>) -> bool;

/// Relies on `regex::Regex::new`: whether a pattern compiles depends on its
/// text alone.
#[verifier::external_body]
pub(crate) fn compiles(pattern: &str) -> (r: bool)
    ensures
        r == pattern_compiles(pattern@),
{
    regex::Regex::new(pattern).is_ok()
}

/// Relies on `regex::Regex::new` and `Regex::is_match`: an unanchored search
/// of `text` for the compiled pattern.
#[verifier::external_body]
pub(crate) fn finds(pattern: &str, text: &str) -> (r: bool)
    requires
        pattern_compiles(pattern@),
    ensures
        r == pattern_finds(pattern@, text@),
{
    regex::Regex::new(pattern).unwrap().is_match(text)
}

pub open spec fn names_contain(names: Seq<String>, name: Seq<char>) -> bool {
    exists|i: int| 0 <= i < names.len() && #[trigger] names[i]@ == name
}

pub open spec fn all_compile(patterns: Seq<String>) -> bool {
    forall|i: int| 0 <= i < patterns.len() ==> pattern_compiles(#[trigger] patterns[i]@)
}

pub open spec fn any_finds(patterns: Seq<String>, text: Seq<char>) -> bool {
    exists|i: int| 0 <= i < patterns.len() && pattern_finds(#[trigger] patterns[i]@, text)
}

/// A configuration fault, found before any pull request is processed.
pub enum ConfigError {
    /// This exclude pattern does not compile.
    InvalidExcludePattern(String),
    /// This ignore pattern does not compile.
    InvalidIgnorePattern(String),
    /// The size thresholds are not strictly ascending.
    ThresholdsNotAscending,
}

/// Exclude rules remove a pull request from every output; ignore rules
/// remove it from the metrics. Repositories match by exact full name,
/// patterns by regular-expression search in the title.
pub struct FilterConfig {
    pub exclude_repos: Vec<String>,
    pub exclude_patterns: Vec<String>,
    pub ignore_repos: Vec<String>,
    pub ignore_patterns: Vec<String>,
}

/// Upper bounds, in changed lines, of the S, M and L size categories.
pub struct SizeConfig {
    pub small: u32,
    pub medium: u32,
    pub large: u32,
}

/// The filter rules and size thresholds of one run.
pub struct Config {
    pub filter: FilterConfig,
    pub size: SizeConfig,
}

/// The index of the first pattern that does not compile, if any.
fn first_invalid(patterns: &Vec<String>) -> (r: Option<usize>)
    ensures
        match r {
            None => all_compile(patterns@),
            Some(i) => i < patterns@.len() && !pattern_compiles(patterns@[i as int]@) && forall|
                j: int,
            | 0 <= j < i ==> pattern_compiles(#[trigger] patterns@[j]@),
        },
{
    let mut i: usize = 0;
    while i < patterns.len()
        invariant
            i <= patterns@.len(),
            forall|j: int| 0 <= j < i ==> pattern_compiles(#[trigger] patterns@[j]@),
        decreases patterns@.len() - i,
    {
        if !compiles(patterns[i].as_str()) {
            return Some(i);
        }
        i = i + 1;
    }
    None
}

fn contains_name(names: &Vec<String>, name: &str) -> (r: bool)
    ensures
        r == names_contain(names@, name@),
{
    let wanted = name.to_owned();
    let mut i: usize = 0;
    while i < names.len()
        invariant
            i <= names@.len(),
            wanted@ == name@,
            forall|j: int| 0 <= j < i ==> #[trigger] names@[j]@ != name@,
        decreases names@.len() - i,
    {
        if names[i] == wanted {
            return true;
        }
        i = i + 1;
    }
    false
}

fn matches_patterns(text: &str, patterns: &Vec<String>) -> (r: bool)
    requires
        all_compile(patterns@),
    ensures
        r == any_finds(patterns@, text@),
{
    let mut i: usize = 0;
    while i < patterns.len()
        invariant
            i <= patterns@.len(),
            all_compile(patterns@),
            forall|j: int| 0 <= j < i ==> !pattern_finds(#[trigger] patterns@[j]@, text@),
        decreases patterns@.len() - i,
    {
        if finds(patterns[i].as_str(), text) {
            return true;
        }
        i = i + 1;
    }
    false
}

impl FilterConfig {
    pub open spec fn patterns_valid(&self) -> bool {
        all_compile(self.exclude_patterns@) && all_compile(self.ignore_patterns@)
    }

    /// Checks that every pattern compiles: the first exclude pattern that
    /// does not, else the first ignore pattern that does not, is the error.
    pub fn validate(&self) -> (r: Result<(), ConfigError>)
        ensures
            r is Ok <==> self.patterns_valid(),
            r matches Err(ConfigError::InvalidExcludePattern(p)) ==> exists|i: int|
                0 <= i < self.exclude_patterns@.len() && #[trigger] self.exclude_patterns@[i]@
                    == p@ && !pattern_compiles(p@),
            r matches Err(ConfigError::InvalidIgnorePattern(p)) ==> all_compile(
                self.exclude_patterns@,
            ) && exists|i: int|
                0 <= i < self.ignore_patterns@.len() && #[trigger] self.ignore_patterns@[i]@
                    == p@ && !pattern_compiles(p@),
            !(r matches Err(ConfigError::ThresholdsNotAscending)),
    {
        match first_invalid(&self.exclude_patterns) {
            Some(i) => {
                return Err(ConfigError::InvalidExcludePattern(self.exclude_patterns[i].clone()));
            },
            None => {},
        }
        match first_invalid(&self.ignore_patterns) {
            Some(i) => Err(ConfigError::InvalidIgnorePattern(self.ignore_patterns[i].clone())),
            None => Ok(()),
        }
    }
}

impl SizeConfig {
    pub open spec fn ascending(&self) -> bool {
        self.small < self.medium && self.medium < self.large
    }

    /// Thresholds that must ascend strictly.
    pub fn new(small: u32, medium: u32, large: u32) -> (r: Self)
        requires
            small < medium < large,
        ensures
            r.small == small && r.medium == medium && r.large == large,
    {
        SizeConfig { small, medium, large }
    }

    /// Thresholds, or the error when they do not ascend strictly.
    pub fn try_new(small: u32, medium: u32, large: u32) -> (r: Result<Self, ConfigError>)
        ensures
            small < medium < large <==> r is Ok,
            r matches Ok(c) ==> c.small == small && c.medium == medium && c.large == large,
            r matches Err(e) ==> e is ThresholdsNotAscending,
    {
        if small < medium && medium < large {
            Ok(SizeConfig::new(small, medium, large))
        } else {
            Err(ConfigError::ThresholdsNotAscending)
        }
    }
}

impl Default for SizeConfig {
    /// S up to 50 lines, M up to 200, L up to 500.
    fn default() -> (r: Self)
        ensures
            r.small == 50 && r.medium == 200 && r.large == 500,
    {
        SizeConfig { small: 50, medium: 200, large: 500 }
    }
}

impl Config {
    pub open spec fn excludes(&self, repo: Seq<char>, title: Seq<char>) -> bool {
        names_contain(self.filter.exclude_repos@, repo) || any_finds(
            self.filter.exclude_patterns@,
            title,
        )
    }

    pub open spec fn ignores(&self, repo: Seq<char>, title: Seq<char>) -> bool {
        names_contain(self.filter.ignore_repos@, repo) || any_finds(
            self.filter.ignore_patterns@,
            title,
        )
    }

    /// Whether the repository is listed under the exclude rules.
    pub fn should_exclude_repo(&self, repo_name: &str) -> (r: bool)
        ensures
            r == names_contain(self.filter.exclude_repos@, repo_name@),
    {
        contains_name(&self.filter.exclude_repos, repo_name)
    }

    /// Whether the title matches an exclude pattern.
    pub fn should_exclude_pr_title(&self, title: &str) -> (r: bool)
        requires
            self.filter.patterns_valid(),
        ensures
            r == any_finds(self.filter.exclude_patterns@, title@),
    {
        matches_patterns(title, &self.filter.exclude_patterns)
    }

    /// Whether the repository is listed under the ignore rules.
    pub fn should_ignore_repo(&self, repo_name: &str) -> (r: bool)
        ensures
            r == names_contain(self.filter.ignore_repos@, repo_name@),
    {
        contains_name(&self.filter.ignore_repos, repo_name)
    }

    /// Whether the title matches an ignore pattern.
    pub fn should_ignore_pr_title(&self, title: &str) -> (r: bool)
        requires
            self.filter.patterns_valid(),
        ensures
            r == any_finds(self.filter.ignore_patterns@, title@),
    {
        matches_patterns(title, &self.filter.ignore_patterns)
    }
}

} // verus!
