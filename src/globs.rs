//! Compiled gitignore-style matchers, and the ignore-file sub-filterer.
use vstd::prelude::*;

verus! {

#[verifier::external_type_specification]
#[verifier::external_body]
pub struct ExGitignore(ignore::gitignore::Gitignore);

#[verifier::external_type_specification]
#[verifier::external_body]
pub struct ExGitignoreBuilder(ignore::gitignore::GitignoreBuilder);

#[verifier::external_type_specification]
#[verifier::external_body]
pub struct ExIgnoreError(ignore::Error);

#[verifier::external_type_specification]
#[verifier::external_body]
pub struct ExIgnoreFilter(ignore_files::IgnoreFilter);

/// The root directory a gitignore builder matches relative to.
pub uninterp spec fn builder_root(b: ignore::gitignore::GitignoreBuilder) -> Seq<char>;

/// The root directory a compiled gitignore matches relative to.
pub uninterp spec fn gitignore_root(g: ignore::gitignore::Gitignore) -> Seq<char>;

/// The pattern lines a gitignore builder holds, in order, each with the
/// directory it is scoped to.
pub uninterp spec fn builder_lines(b: ignore::gitignore::GitignoreBuilder) -> Seq<(Option<Seq<char>>, Seq<char>)>;

/// The pattern lines a compiled gitignore holds, in order, each with the
/// directory it is scoped to.
pub uninterp spec fn gitignore_lines(g: ignore::gitignore::Gitignore) -> Seq<(Option<Seq<char>>, Seq<char>)>;

/// Whether `GitignoreBuilder::add_line` accepts the line (with the builder's
/// default settings, which are never changed here).
pub uninterp spec fn gitignore_line_parses(line: Seq<char>) -> bool;

/// Whether `GitignoreBuilder::build` succeeds on a builder holding these lines.
pub uninterp spec fn gitignore_builds(lines: Seq<(Option<Seq<char>>, Seq<char>)>) -> bool;

/// The verdict of `Gitignore::matched` on `path`, for a matcher with this root
/// and these lines (built with the builder's default settings).
pub uninterp spec fn gitignore_path_verdict(
    root: Seq<char>,
    lines: Seq<(Option<Seq<char>>, Seq<char>)>,
    path: Seq<char>,
    is_dir: bool,
) -> GlobMatch;

/// The verdict of `Gitignore::matched_path_or_any_parents` on `path`, for a
/// matcher with this root and these lines (built with the default settings).
pub uninterp spec fn gitignore_tree_verdict(
    root: Seq<char>,
    lines: Seq<(Option<Seq<char>>, Seq<char>)>,
    path: Seq<char>,
    is_dir: bool,
) -> GlobMatch;

/// Whether `char::is_whitespace` holds: the Unicode `White_Space` characters.
pub open spec fn is_space(c: char) -> bool {
    ('\t' <= c <= '\r') || c == ' ' || c == '\u{85}' || c == '\u{a0}' || c == '\u{1680}'
        || ('\u{2000}' <= c <= '\u{200a}') || c == '\u{2028}' || c == '\u{2029}' || c == '\u{202f}'
        || c == '\u{205f}' || c == '\u{3000}'
}

/// `line` without trailing whitespace, as `str::trim_end` gives it.
pub open spec fn trim_end_space(line: Seq<char>) -> Seq<char>
    decreases line.len(),
{
    if line.len() > 0 && is_space(line.last()) {
        trim_end_space(line.drop_last())
    } else {
        line
    }
}

/// The text a gitignore builder keeps of a pattern line: none for a comment
/// (leading `#`) or a blank line; otherwise the line without trailing
/// whitespace, unless it ends in an escaped space (`\ `).
pub open spec fn kept_line(line: Seq<char>) -> Option<Seq<char>> {
    if line.len() > 0 && line[0] == '#' {
        None
    } else {
        let escaped = line.len() >= 2 && line[line.len() - 2] == '\\' && line.last() == ' ';
        let t = if escaped { line } else { trim_end_space(line) };
        if t.len() == 0 { None } else { Some(t) }
    }
}

pub open spec fn scope_view(from: Option<String>) -> Option<Seq<char>> {
    match from {
        Some(p) => Some(p@),
        None => None,
    }
}

/// The verdict of a gitignore-style matcher on one path.
#[derive(Clone, Debug)]
pub enum GlobMatch {
    /// No pattern matched.
    Unmatched,
    /// A pattern matched; it was defined with this scope directory, if any.
    Ignore(Option<String>),
    /// A `!`-prefixed pattern matched.
    Whitelist,
}

/// Relies on `GitignoreBuilder::new`: the builder keeps `root`, which starts
/// with `/` and so is not shortened.
#[verifier::external_body]
pub(crate) fn gitignore_builder(root: &str) -> (r: ignore::gitignore::GitignoreBuilder)
    requires
        root@.len() > 0,
        root@[0] == '/',
    ensures
        builder_root(r) == root@,
        builder_lines(r) == Seq::<(Option<Seq<char>>, Seq<char>)>::empty(),
{
    ignore::gitignore::GitignoreBuilder::new(root)
}

/// Relies on `GitignoreBuilder::add_line`: success depends on the line alone;
/// the kept text of the line (see [`kept_line`]) is added,
/// scoped to `from`; on an error nothing is added; the root is unchanged.
#[verifier::external_body]
pub(crate) fn builder_add_line(
    b: &mut ignore::gitignore::GitignoreBuilder,
    from: Option<String>,
    line: &str,
) -> (r: Result<(), ignore::Error>)
    ensures
        builder_root(*final(b)) == builder_root(*old(b)),
        r is Ok == gitignore_line_parses(line@),
        r is Err ==> builder_lines(*final(b)) == builder_lines(*old(b)),
        r is Ok ==> builder_lines(*final(b)) == match kept_line(line@) {
            Some(k) => builder_lines(*old(b)).push((scope_view(from), k)),
            None => builder_lines(*old(b)),
        },
{
    b.add_line(from.map(std::path::PathBuf::from), line).map(|_| ())
}

/// Relies on `GitignoreBuilder::build`: success depends on the lines held; the
/// matcher keeps the builder's root and lines.
#[verifier::external_body]
pub(crate) fn builder_build(b: &ignore::gitignore::GitignoreBuilder) -> (r: Result<
    ignore::gitignore::Gitignore,
    ignore::Error,
>)
    ensures
        r is Ok == gitignore_builds(builder_lines(*b)),
        r matches Ok(g) ==> gitignore_root(g) == builder_root(*b) && gitignore_lines(g) == builder_lines(*b),
{
    b.build()
}

/// Relies on `Gitignore::matched`: the verdict on `path` alone, which depends on
/// the matcher's root and lines, the path and `is_dir`.
#[verifier::external_body]
pub(crate) fn gitignore_matched(g: &ignore::gitignore::Gitignore, path: &str, is_dir: bool) -> (r: GlobMatch)
    ensures
        r == gitignore_path_verdict(gitignore_root(*g), gitignore_lines(*g), path@, is_dir),
{
    match g.matched(path, is_dir) {
        ignore::Match::None => GlobMatch::Unmatched,
        ignore::Match::Ignore(glob) => GlobMatch::Ignore(glob.from().map(|p| p.to_string_lossy().into_owned())),
        ignore::Match::Whitelist(_) => GlobMatch::Whitelist,
    }
}

/// Relies on `Gitignore::matched_path_or_any_parents`: the verdict on `path` or
/// the nearest of its ancestors below the root that a pattern matches. It
/// panics where the path, once the root and one separator are taken off, is
/// still absolute (a path outside the root, or a doubled separator after it),
/// which `requires` leaves out.
#[verifier::external_body]
pub(crate) fn gitignore_matched_or_parents(g: &ignore::gitignore::Gitignore, path: &str, is_dir: bool) -> (r: GlobMatch)
    requires
        gitignore_root(*g).len() > 0,
        gitignore_root(*g)[0] == '/',
        crate::text::strip_path(path@, gitignore_root(*g)) matches Some(rest) && (rest.len() == 0 || rest[0] != '/'),
    ensures
        r == gitignore_tree_verdict(gitignore_root(*g), gitignore_lines(*g), path@, is_dir),
{
    match g.matched_path_or_any_parents(path, is_dir) {
        ignore::Match::None => GlobMatch::Unmatched,
        ignore::Match::Ignore(glob) => GlobMatch::Ignore(glob.from().map(|p| p.to_string_lossy().into_owned())),
        ignore::Match::Whitelist(_) => GlobMatch::Whitelist,
    }
}

/// Relies on `IgnoreFilter::empty`, which panics only where the origin cannot be
/// made absolute; an absolute origin is kept as it is.
#[verifier::external_body]
pub(crate) fn ignore_filter_empty(origin: &str) -> (r: ignore_files::IgnoreFilter)
    requires
        origin@.len() > 0,
        origin@[0] == '/',
{
    ignore_files::IgnoreFilter::empty(origin)
}

/// Relies on `IgnoreFilter::match_path_or_ancestors`: the verdict of the loaded
/// ignore files on `path`.
#[verifier::external_body]
pub(crate) fn ignore_filter_match(f: &ignore_files::IgnoreFilter, path: &str, is_dir: bool) -> (r: GlobMatch) {
    match f.match_path_or_ancestors(std::path::Path::new(path), is_dir) {
        ignore::Match::None => GlobMatch::Unmatched,
        ignore::Match::Ignore(glob) => GlobMatch::Ignore(glob.from().map(|p| p.to_string_lossy().into_owned())),
        ignore::Match::Whitelist(_) => GlobMatch::Whitelist,
    }
}

} // verus!
