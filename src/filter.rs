//! Filter records: what a filter applies to, how it compares, and against what.
use vstd::prelude::*;
use crate::error::TaggedFiltererError;
use crate::tags::Tag;
use crate::text::{chars_eq, chars_of, string_of};

verus! {

/// The dimension of an event that a filter applies to.
#[derive(Clone, Copy, Debug, PartialEq, Eq, Structural)]
pub enum Matcher {
    Tag,
    Path,
    FileType,
    FileEventKind,
    Source,
    Process,
    Signal,
    ProcessCompletion,
    Priority,
}

/// How a filter compares a subject with its pattern.
#[derive(Clone, Copy, Debug, PartialEq, Eq, Structural)]
pub enum Op {
    Auto,
    Equal,
    NotEqual,
    Regex,
    NotRegex,
    InSet,
    NotInSet,
    Glob,
    NotGlob,
}

/// What a filter compares against.
#[derive(Clone, Debug)]
pub enum Pattern {
    Exact(String),
    Regex(String),
    Glob(String),
    OneOf(Vec<String>),
}

/// A single predicate over one dimension of an event.
#[derive(Clone, Debug)]
pub struct Filter {
    /// Directory that scopes a path filter.
    pub in_path: Option<String>,
    pub on: Matcher,
    pub op: Op,
    pub pat: Pattern,
    /// Inverts the outcome after the comparison, with short-circuit semantics.
    pub negate: bool,
}

/// A pattern as character sequences.
pub enum PatternView {
    Exact(Seq<char>),
    Regex(Seq<char>),
    Glob(Seq<char>),
    OneOf(Seq<Seq<char>>),
}

/// A filter as character sequences.
pub struct FilterView {
    pub in_path: Option<Seq<char>>,
    pub on: Matcher,
    pub op: Op,
    pub pat: PatternView,
    pub negate: bool,
}

impl View for Pattern {
    type V = PatternView;

    open spec fn view(&self) -> PatternView {
        match self {
            Pattern::Exact(s) => PatternView::Exact(s@),
            Pattern::Regex(s) => PatternView::Regex(s@),
            Pattern::Glob(s) => PatternView::Glob(s@),
            Pattern::OneOf(v) => PatternView::OneOf(v@.map_values(|s: String| s@)),
        }
    }
}

impl View for Filter {
    type V = FilterView;

    open spec fn view(&self) -> FilterView {
        FilterView {
            in_path: match self.in_path {
                Some(p) => Some(p@),
                None => None,
            },
            on: self.on,
            op: self.op,
            pat: self.pat@,
            negate: self.negate,
        }
    }
}

/// The outcome of `regex::Regex::new(pattern)` then `is_match(subject)`:
/// `None` when the pattern does not compile.
pub uninterp spec fn regex_outcome(pattern: Seq<char>, subject: Seq<char>) -> Option<bool>;

/// The outcome of matching `subject` against `pattern` as a one-glob
/// `globset::GlobSet`: `None` when the pattern does not parse or the set does
/// not build.
pub uninterp spec fn glob_outcome(pattern: Seq<char>, subject: Seq<char>) -> Option<bool>;

/// Whether `pattern` parses as a `globset::Glob` and a one-glob `GlobSet` of
/// it builds.
pub uninterp spec fn glob_parses(pattern: Seq<char>) -> bool;

/// Relies on `regex::Regex::new` and `Regex::is_match`.
#[verifier::external_body]
fn regex_is_match(pattern: &str, subject: &str) -> (r: Option<bool>)
    ensures
        r == regex_outcome(pattern@, subject@),
{
    regex::Regex::new(pattern).ok().map(|re| re.is_match(subject))
}

/// Relies on `globset::Glob::new`, `GlobSetBuilder::add`, `GlobSetBuilder::build`
/// and `GlobSet::is_match`; the build reports a pattern too large to compile
/// as an error.
#[verifier::external_body]
fn glob_is_match(pattern: &str, subject: &str) -> (r: Option<bool>)
    ensures
        r == glob_outcome(pattern@, subject@),
        r is Some == glob_parses(pattern@),
{
    let glob = match globset::Glob::new(pattern) {
        Ok(g) => g,
        Err(_) => return None,
    };
    let mut builder = globset::GlobSetBuilder::new();
    builder.add(glob);
    match builder.build() {
        Ok(set) => Some(set.is_match(subject)),
        Err(_) => None,
    }
}

/// Relies on `globset::Glob::new`, `GlobSetBuilder::add` and
/// `GlobSetBuilder::build`: whether the pattern parses and builds.
#[verifier::external_body]
fn glob_is_valid(pattern: &str) -> (r: bool)
    ensures
        r == glob_parses(pattern@),
{
    let glob = match globset::Glob::new(pattern) {
        Ok(g) => g,
        Err(_) => return false,
    };
    let mut builder = globset::GlobSetBuilder::new();
    builder.add(glob);
    builder.build().is_ok()
}

/// Whether the set holds the subject.
pub open spec fn set_has(set: Seq<Seq<char>>, s: Seq<char>) -> bool {
    exists|i: int| 0 <= i < set.len() && set[i] == s
}

pub open spec fn regex_result(p: Seq<char>, s: Seq<char>) -> Result<bool, TaggedFiltererError> {
    match regex_outcome(p, s) {
        Some(b) => Ok(b),
        None => Err(TaggedFiltererError::RegexParse),
    }
}

pub open spec fn glob_result(p: Seq<char>, s: Seq<char>) -> Result<bool, TaggedFiltererError> {
    match glob_outcome(p, s) {
        Some(b) => Ok(b),
        None => Err(TaggedFiltererError::GlobParse),
    }
}

/// Whether the operator inverts its comparison.
pub open spec fn is_negative(op: Op) -> bool {
    op == Op::NotEqual || op == Op::NotRegex || op == Op::NotInSet || op == Op::NotGlob
}

pub open spec fn is_glob_op(op: Op) -> bool {
    op == Op::Glob || op == Op::NotGlob
}

/// The comparison an operator makes, before a `Not` operator inverts it.
///
/// `Auto` compares by the pattern's own kind. Equality also accepts a set
/// (membership) and set membership also accepts a single string (equality);
/// regex and glob comparisons also accept an exact string as their pattern.
/// Any other pairing is a mismatch.
pub open spec fn comparison(op: Op, pat: PatternView, s: Seq<char>) -> Result<bool, TaggedFiltererError> {
    match (op, pat) {
        (Op::Auto, PatternView::Exact(p)) => Ok(s == p),
        (Op::Auto, PatternView::Regex(p)) => regex_result(p, s),
        (Op::Auto, PatternView::Glob(p)) => glob_result(p, s),
        (Op::Auto, PatternView::OneOf(v)) => Ok(set_has(v, s)),
        (Op::Equal, PatternView::Exact(p)) | (Op::NotEqual, PatternView::Exact(p))
        | (Op::InSet, PatternView::Exact(p)) | (Op::NotInSet, PatternView::Exact(p)) => Ok(s == p),
        (Op::Equal, PatternView::OneOf(v)) | (Op::NotEqual, PatternView::OneOf(v))
        | (Op::InSet, PatternView::OneOf(v)) | (Op::NotInSet, PatternView::OneOf(v)) => Ok(set_has(v, s)),
        (Op::Regex, PatternView::Regex(p)) | (Op::NotRegex, PatternView::Regex(p))
        | (Op::Regex, PatternView::Exact(p)) | (Op::NotRegex, PatternView::Exact(p)) => regex_result(p, s),
        (Op::Glob, PatternView::Glob(p)) | (Op::NotGlob, PatternView::Glob(p))
        | (Op::Glob, PatternView::Exact(p)) | (Op::NotGlob, PatternView::Exact(p)) => glob_result(p, s),
        _ => Err(TaggedFiltererError::PatternMismatch),
    }
}

/// Whether the filter's comparison holds of `s`; `negate` is not applied here.
pub open spec fn filter_matches(f: FilterView, s: Seq<char>) -> Result<bool, TaggedFiltererError> {
    match comparison(f.op, f.pat, s) {
        Ok(b) => Ok(if is_negative(f.op) { !b } else { b }),
        Err(e) => Err(e),
    }
}

/// `p` without trailing separators, the root `/` kept.
pub open spec fn trim_dir(p: Seq<char>) -> Seq<char>
    decreases p.len(),
{
    if p.len() > 1 && p.last() == '/' {
        trim_dir(p.drop_last())
    } else {
        p
    }
}

/// The canonical form of a filter: a glob operator's pattern becomes a parsed
/// glob (or the filter is refused), and the scope directory loses trailing
/// separators.
pub open spec fn canonical(f: FilterView) -> Result<FilterView, TaggedFiltererError> {
    let in_path = match f.in_path {
        Some(p) => Some(trim_dir(p)),
        None => None,
    };
    if is_glob_op(f.op) {
        match f.pat {
            PatternView::Exact(p) | PatternView::Glob(p) => if glob_parses(p) {
                Ok(FilterView { in_path, on: f.on, op: f.op, pat: PatternView::Glob(p), negate: f.negate })
            } else {
                Err(TaggedFiltererError::GlobParse)
            },
            _ => Err(TaggedFiltererError::PatternMismatch),
        }
    } else {
        Ok(FilterView { in_path, on: f.on, op: f.op, pat: f.pat, negate: f.negate })
    }
}

/// The dimensions a tag is matched on.
pub open spec fn tag_matchers(t: Tag) -> Seq<Matcher> {
    match t {
        Tag::Path { file_type: None, .. } => seq![Matcher::Tag, Matcher::Path],
        Tag::Path { .. } => seq![Matcher::Tag, Matcher::Path, Matcher::FileType],
        Tag::FileEventKind(_) => seq![Matcher::Tag, Matcher::FileEventKind],
        Tag::Source(_) => seq![Matcher::Tag, Matcher::Source],
        Tag::Process(_) => seq![Matcher::Tag, Matcher::Process],
        Tag::Signal(_) => seq![Matcher::Tag, Matcher::Signal],
        Tag::ProcessCompletion(_) => seq![Matcher::Tag, Matcher::ProcessCompletion],
        _ => seq![Matcher::Tag],
    }
}

/// Position of a matcher in a table with one slot per dimension.
pub open spec fn matcher_slot(m: Matcher) -> int {
    match m {
        Matcher::Tag => 0,
        Matcher::Path => 1,
        Matcher::FileType => 2,
        Matcher::FileEventKind => 3,
        Matcher::Source => 4,
        Matcher::Process => 5,
        Matcher::Signal => 6,
        Matcher::ProcessCompletion => 7,
        Matcher::Priority => 8,
    }
}

/// Number of dimensions.
pub const MATCHER_COUNT: usize = 9;

impl Matcher {
    /// The dimensions a tag is matched on, in order.
    pub fn from_tag(tag: &Tag) -> (r: Vec<Matcher>)
        ensures
            r@ == tag_matchers(*tag),
    {
        let r = match tag {
            Tag::Path { file_type: None, .. } => vec![Matcher::Tag, Matcher::Path],
            Tag::Path { .. } => vec![Matcher::Tag, Matcher::Path, Matcher::FileType],
            Tag::FileEventKind(_) => vec![Matcher::Tag, Matcher::FileEventKind],
            Tag::Source(_) => vec![Matcher::Tag, Matcher::Source],
            Tag::Process(_) => vec![Matcher::Tag, Matcher::Process],
            Tag::Signal(_) => vec![Matcher::Tag, Matcher::Signal],
            Tag::ProcessCompletion(_) => vec![Matcher::Tag, Matcher::ProcessCompletion],
            _ => vec![Matcher::Tag],
        };
        assert(r@ =~= tag_matchers(*tag));
        r
    }

    /// Position of this matcher in a table with one slot per dimension.
    pub fn slot(self) -> (r: usize)
        ensures
            r as int == matcher_slot(self),
            r < MATCHER_COUNT,
    {
        match self {
            Matcher::Tag => 0,
            Matcher::Path => 1,
            Matcher::FileType => 2,
            Matcher::FileEventKind => 3,
            Matcher::Source => 4,
            Matcher::Process => 5,
            Matcher::Signal => 6,
            Matcher::ProcessCompletion => 7,
            Matcher::Priority => 8,
        }
    }
}

fn set_contains(set: &Vec<String>, s: &Vec<char>) -> (r: bool)
    ensures
        r == set_has(set@.map_values(|x: String| x@), s@),
{
    let ghost v = set@.map_values(|x: String| x@);
    let mut i: usize = 0;
    while i < set.len()
        invariant
            i <= set@.len(),
            v == set@.map_values(|x: String| x@),
            forall|j: int| 0 <= j < i ==> v[j] != s@,
        decreases set@.len() - i,
    {
        let item = chars_of(set[i].as_str());
        if chars_eq(&item, s) {
            assert(v[i as int] == s@);
            return true;
        }
        i = i + 1;
    }
    false
}

fn regex_check(p: &String, s: &Vec<char>) -> (r: Result<bool, TaggedFiltererError>)
    ensures
        r == regex_result(p@, s@),
{
    let subject = string_of(s);
    match regex_is_match(p.as_str(), subject.as_str()) {
        Some(b) => Ok(b),
        None => Err(TaggedFiltererError::RegexParse),
    }
}

fn glob_check(p: &String, s: &Vec<char>) -> (r: Result<bool, TaggedFiltererError>)
    ensures
        r == glob_result(p@, s@),
{
    let subject = string_of(s);
    match glob_is_match(p.as_str(), subject.as_str()) {
        Some(b) => Ok(b),
        None => Err(TaggedFiltererError::GlobParse),
    }
}

fn trim_dir_exec(p: &String) -> (r: String)
    ensures
        r@ == trim_dir(p@),
{
    let mut v = chars_of(p.as_str());
    while v.len() > 1 && v[v.len() - 1] == '/'
        invariant
            trim_dir(v@) == trim_dir(p@),
        decreases v@.len(),
    {
        v.pop();
    }
    string_of(&v)
}

fn copy_strings(v: &Vec<String>) -> (r: Vec<String>)
    ensures
        r@.map_values(|x: String| x@) == v@.map_values(|x: String| x@),
{
    let mut out: Vec<String> = Vec::new();
    let mut i: usize = 0;
    while i < v.len()
        invariant
            i <= v@.len(),
            out@.len() == i,
            forall|j: int| 0 <= j < i ==> (#[trigger] out@[j])@ == v@[j]@,
        decreases v@.len() - i,
    {
        out.push(v[i].clone());
        i = i + 1;
    }
    assert(out@.map_values(|x: String| x@) =~= v@.map_values(|x: String| x@));
    out
}

impl Filter {
    /// A copy of this filter.
    pub fn duplicate(&self) -> (r: Filter)
        ensures
            r@ == self@,
    {
        let in_path = match &self.in_path {
            Some(p) => Some(p.clone()),
            None => None,
        };
        let pat = match &self.pat {
            Pattern::Exact(p) => Pattern::Exact(p.clone()),
            Pattern::Regex(p) => Pattern::Regex(p.clone()),
            Pattern::Glob(p) => Pattern::Glob(p.clone()),
            Pattern::OneOf(v) => Pattern::OneOf(copy_strings(v)),
        };
        Filter { in_path, on: self.on, op: self.op, pat, negate: self.negate }
    }

    /// Compares `subject` with the pattern by the operator (see [`filter_matches`]).
    /// `negate` is left to the caller.
    pub fn matches_chars(&self, subject: &Vec<char>) -> (r: Result<bool, TaggedFiltererError>)
        ensures
            r == filter_matches(self@, subject@),
    {
        let raw = match (&self.op, &self.pat) {
            (Op::Auto, Pattern::Exact(p)) => Ok(chars_eq(subject, &chars_of(p.as_str()))),
            (Op::Auto, Pattern::Regex(p)) => regex_check(p, subject),
            (Op::Auto, Pattern::Glob(p)) => glob_check(p, subject),
            (Op::Auto, Pattern::OneOf(v)) => Ok(set_contains(v, subject)),
            (Op::Equal, Pattern::Exact(p)) | (Op::NotEqual, Pattern::Exact(p))
            | (Op::InSet, Pattern::Exact(p)) | (Op::NotInSet, Pattern::Exact(p)) => {
                Ok(chars_eq(subject, &chars_of(p.as_str())))
            },
            (Op::Equal, Pattern::OneOf(v)) | (Op::NotEqual, Pattern::OneOf(v))
            | (Op::InSet, Pattern::OneOf(v)) | (Op::NotInSet, Pattern::OneOf(v)) => {
                Ok(set_contains(v, subject))
            },
            (Op::Regex, Pattern::Regex(p)) | (Op::NotRegex, Pattern::Regex(p))
            | (Op::Regex, Pattern::Exact(p)) | (Op::NotRegex, Pattern::Exact(p)) => regex_check(p, subject),
            (Op::Glob, Pattern::Glob(p)) | (Op::NotGlob, Pattern::Glob(p))
            | (Op::Glob, Pattern::Exact(p)) | (Op::NotGlob, Pattern::Exact(p)) => glob_check(p, subject),
            _ => Err(TaggedFiltererError::PatternMismatch),
        };
        match raw {
            Ok(b) => {
                let neg = match self.op {
                    Op::NotEqual | Op::NotRegex | Op::NotInSet | Op::NotGlob => true,
                    _ => false,
                };
                Ok(if neg { !b } else { b })
            },
            Err(e) => Err(e),
        }
    }

    /// Compares `subject` with the pattern by the operator (see [`filter_matches`]).
    pub fn matches(&self, subject: &str) -> (r: Result<bool, TaggedFiltererError>)
        ensures
            r == filter_matches(self@, subject@),
    {
        self.matches_chars(&chars_of(subject))
    }

    /// The canonical form of this filter (see [`canonical`]).
    pub fn canonicalised(self) -> (r: Result<Filter, TaggedFiltererError>)
        ensures
            match (r, canonical(self@)) {
                (Ok(g), Ok(v)) => g@ == v,
                (Err(e), Err(x)) => e == x,
                _ => false,
            },
    {
        let in_path = match &self.in_path {
            Some(p) => Some(trim_dir_exec(p)),
            None => None,
        };
        match self.op {
            Op::Glob | Op::NotGlob => match self.pat {
                Pattern::Exact(p) | Pattern::Glob(p) => {
                    if glob_is_valid(p.as_str()) {
                        Ok(Filter { in_path, on: self.on, op: self.op, pat: Pattern::Glob(p), negate: self.negate })
                    } else {
                        Err(TaggedFiltererError::GlobParse)
                    }
                },
                _ => Err(TaggedFiltererError::PatternMismatch),
            },
            _ => Ok(Filter { in_path, on: self.on, op: self.op, pat: self.pat, negate: self.negate }),
        }
    }
}

proof fn lemma_trim_dir_settled(p: Seq<char>)
    ensures
        trim_dir(trim_dir(p)) == trim_dir(p),
    decreases p.len(),
{
    if p.len() > 1 && p.last() == '/' {
        lemma_trim_dir_settled(p.drop_last());
    }
}

/// Canonicalising a canonical filter gives it back unchanged.
pub proof fn lemma_canonical_idempotent(f: FilterView)
    requires
        canonical(f) is Ok,
    ensures
        canonical(canonical(f)->Ok_0) == canonical(f),
{
    if let Some(p) = f.in_path {
        lemma_trim_dir_settled(p);
    }
}

/// A canonical filter with a glob operator holds a pattern that parses as a glob.
pub proof fn lemma_glob_ops_hold_globs(f: FilterView)
    requires
        is_glob_op(f.op),
        canonical(f) is Ok,
    ensures
        canonical(f)->Ok_0.pat matches PatternView::Glob(p) && glob_parses(p),
{
}

} // verus!
