//! The tagged filterer: filters per dimension, compiled glob matchers over path
//! filters, and an ignore-file sub-filterer.
use vstd::prelude::*;
use crate::error::TaggedFiltererError;
use crate::filter::{
    canonical, filter_matches, is_glob_op, lemma_canonical_idempotent, lemma_glob_ops_hold_globs, matcher_slot,
    tag_matchers, glob_parses, Filter, FilterView, Matcher, Op, Pattern, PatternView, MATCHER_COUNT,
};
use crate::globs::{
    builder_add_line, builder_build, builder_lines, builder_root, gitignore_builds, gitignore_line_parses, gitignore_builder, gitignore_matched, gitignore_matched_or_parents,
    gitignore_lines, gitignore_path_verdict, gitignore_root, gitignore_tree_verdict, ignore_filter_empty, ignore_filter_match, kept_line, scope_view, GlobMatch,
};
use crate::tags::{
    completion_subjects, completion_texts, file_type_chars, file_type_text, priority_chars, priority_text,
    signal_subjects, signal_texts, tag_name, Event, FileType, Priority, Tag,
};
use crate::text::{chars_of, path_strip, render_decimal, string_of, decimal, strip_path};

verus! {

/// The verdicts of the two compiled glob matchers on one tag: absent where the
/// matcher is not compiled or the tag is not a path.
#[derive(Clone, Debug)]
pub struct PathVerdicts {
    pub glob: Option<GlobMatch>,
    pub not_glob: Option<GlobMatch>,
}

pub open spec fn no_verdicts() -> PathVerdicts {
    PathVerdicts { glob: None, not_glob: None }
}

/// Whether a matched pattern's scope directory (if any) holds `path`.
pub open spec fn in_scope(from: Option<String>, path: Seq<char>) -> bool {
    match from {
        None => true,
        Some(f) => strip_path(path, f@) is Some,
    }
}

/// Where the compiled matchers leave a path tag before its other filters run.
///
/// The two matchers' results are and-ed. Glob matcher: no match fails, any
/// other verdict passes. Not-glob matcher: an in-scope match fails, any other
/// verdict passes.
pub open spec fn glob_initial(v: PathVerdicts, path: Seq<char>) -> bool {
    let after_glob = match v.glob {
        Some(GlobMatch::Unmatched) => false,
        _ => true,
    };
    match v.not_glob {
        Some(GlobMatch::Ignore(from)) => if in_scope(from, path) { false } else { after_glob },
        _ => after_glob,
    }
}

pub open spec fn some_of(r: Result<bool, TaggedFiltererError>) -> Result<Option<bool>, TaggedFiltererError> {
    match r {
        Ok(b) => Ok(Some(b)),
        Err(e) => Err(e),
    }
}

/// Combines the outcomes of a dimension's filters, in order, from `acc`.
///
/// An outcome of `None` is skipped; an error stops with that error. A negated
/// filter that applies passes the dimension at once; one that does not apply
/// has no effect. Any other filter's outcome is and-ed in.
pub open spec fn reduce(
    fs: Seq<FilterView>,
    outs: Seq<Result<Option<bool>, TaggedFiltererError>>,
    acc: bool,
) -> Result<bool, TaggedFiltererError>
    decreases fs.len(),
{
    if fs.len() == 0 || outs.len() == 0 {
        Ok(acc)
    } else {
        match outs[0] {
            Err(e) => Err(e),
            Ok(None) => reduce(fs.drop_first(), outs.drop_first(), acc),
            Ok(Some(a)) => if fs[0].negate {
                if a {
                    Ok(true)
                } else {
                    reduce(fs.drop_first(), outs.drop_first(), acc)
                }
            } else {
                reduce(fs.drop_first(), outs.drop_first(), acc && a)
            },
        }
    }
}

/// Whether the filter matches any of the texts, trying them in order; an error
/// stops the search.
pub open spec fn any_match(f: FilterView, texts: Seq<Seq<char>>) -> Result<bool, TaggedFiltererError>
    decreases texts.len(),
{
    if texts.len() == 0 {
        Ok(false)
    } else {
        match filter_matches(f, texts[0]) {
            Err(e) => Err(e),
            Ok(true) => Ok(true),
            Ok(false) => any_match(f, texts.drop_first()),
        }
    }
}

/// The filters of `cs` on dimension `m`, in order.
pub open spec fn on_dimension(cs: Seq<FilterView>, m: Matcher) -> Seq<FilterView>
    decreases cs.len(),
{
    if cs.len() == 0 {
        seq![]
    } else if cs.last().on == m {
        on_dimension(cs.drop_last(), m).push(cs.last())
    } else {
        on_dimension(cs.drop_last(), m)
    }
}

/// The canonical forms of the filters, in order, or the first filter's error.
pub open spec fn canonical_all(fs: Seq<FilterView>) -> Result<Seq<FilterView>, TaggedFiltererError>
    decreases fs.len(),
{
    if fs.len() == 0 {
        Ok(seq![])
    } else {
        match canonical(fs[0]) {
            Err(e) => Err(e),
            Ok(g) => match canonical_all(fs.drop_first()) {
                Err(e) => Err(e),
                Ok(rest) => Ok(seq![g] + rest),
            },
        }
    }
}

/// The gitignore line of a glob filter: its pattern, with `!` in front when negated.
pub open spec fn glob_line(f: FilterView) -> Seq<char> {
    match f.pat {
        PatternView::Glob(p) => if f.negate { seq!['!'] + p } else { p },
        _ => seq![],
    }
}

/// The gitignore lines, each scoped to its filter's directory, of the filters
/// with operator `op` and a glob pattern, in order.
pub open spec fn glob_lines(fs: Seq<FilterView>, op: Op) -> Seq<(Option<Seq<char>>, Seq<char>)>
    decreases fs.len(),
{
    if fs.len() == 0 {
        seq![]
    } else {
        let rest = glob_lines(fs.drop_last(), op);
        let f = fs.last();
        if f.op == op && f.pat is Glob {
            rest.push((f.in_path, glob_line(f)))
        } else {
            rest
        }
    }
}

/// The lines a gitignore builder holds after being given `ls` in order.
pub open spec fn kept_lines(ls: Seq<(Option<Seq<char>>, Seq<char>)>) -> Seq<(Option<Seq<char>>, Seq<char>)>
    decreases ls.len(),
{
    if ls.len() == 0 {
        seq![]
    } else {
        let rest = kept_lines(ls.drop_last());
        match kept_line(ls.last().1) {
            Some(k) => rest.push((ls.last().0, k)),
            None => rest,
        }
    }
}

/// Whether the gitignore builder accepts every line and then builds.
pub open spec fn lines_compile(ls: Seq<(Option<Seq<char>>, Seq<char>)>) -> bool {
    &&& forall|k: int| 0 <= k < ls.len() ==> gitignore_line_parses(#[trigger] ls[k].1)
    &&& gitignore_builds(kept_lines(ls))
}

/// Whether a matcher can be had for the lines: none are needed, or they compile.
pub open spec fn lines_ok(ls: Seq<(Option<Seq<char>>, Seq<char>)>) -> bool {
    ls.len() == 0 || lines_compile(ls)
}

/// Whether no verdict of the ignore files ignores a path.
pub open spec fn ignores_let_through(verdicts: Seq<GlobMatch>) -> bool {
    forall|i: int| 0 <= i < verdicts.len() ==> !(#[trigger] verdicts[i] is Ignore)
}

/// Whether some filter has operator `op`.
pub open spec fn has_op(fs: Seq<FilterView>, op: Op) -> bool {
    exists|i: int| 0 <= i < fs.len() && fs[i].op == op
}

/// A filterer that can match any event tag, with different matching operators.
pub struct TaggedFilterer {
    /// The directory the project is in.
    origin: Vec<char>,
    /// Where the program runs from.
    workdir: Vec<char>,
    /// The filters, in order, in one slot per dimension.
    filters: Vec<Vec<Filter>>,
    ignore_filter: ignore_files::IgnoreFilter,
    ignore_loaded: bool,
    glob_compiled: Option<ignore::gitignore::Gitignore>,
    not_glob_compiled: Option<ignore::gitignore::Gitignore>,
}

impl TaggedFilterer {
    pub closed spec fn origin_view(self) -> Seq<char> {
        self.origin@
    }

    pub closed spec fn workdir_view(self) -> Seq<char> {
        self.workdir@
    }

    /// The filters on dimension `m`, in order.
    pub closed spec fn filters_on(self, m: Matcher) -> Seq<FilterView> {
        self.filters@[matcher_slot(m)]@.map_values(|f: Filter| f@)
    }

    /// Whether an ignore file has been loaded.
    pub closed spec fn has_ignores(self) -> bool {
        self.ignore_loaded
    }

    pub closed spec fn ignores(self) -> ignore_files::IgnoreFilter {
        self.ignore_filter
    }


    pub closed spec fn wf(self) -> bool {
        &&& self.filters@.len() == MATCHER_COUNT
        &&& self.origin@.len() > 0
        &&& self.origin@[0] == '/'
        &&& (self.glob_compiled matches Some(g) ==> gitignore_root(g) == self.origin@)
        &&& (self.not_glob_compiled matches Some(g) ==> gitignore_root(g) == self.origin@)
        &&& self.filters_in_place()
    }

    /// Every stored filter sits under its own dimension and is canonical.
    pub open spec fn filters_in_place(self) -> bool {
        forall|m: Matcher, i: int|
            0 <= i < self.filters_on(m).len() ==> {
                &&& (#[trigger] self.filters_on(m)[i]).on == m
                &&& canonical(self.filters_on(m)[i]) == Ok::<FilterView, TaggedFiltererError>(self.filters_on(m)[i])
            }
    }

    /// Whether no dimension has a filter.
    pub open spec fn no_filters(self) -> bool {
        forall|m: Matcher| #[trigger] self.filters_on(m).len() == 0
    }

    /// The text a path filter is matched against: the path below the filter's
    /// scope (none outside it), else below the working directory, else below the
    /// origin, else without its leading `/`.
    pub open spec fn resolve(self, f: FilterView, path: Seq<char>) -> Option<Seq<char>> {
        match f.in_path {
            Some(ctx) => strip_path(path, ctx),
            None => match strip_path(path, self.workdir_view()) {
                Some(s) => Some(s),
                None => match strip_path(path, self.origin_view()) {
                    Some(s) => Some(s),
                    None => match strip_path(path, seq!['/']) {
                        Some(s) => Some(s),
                        None => Some(path),
                    },
                },
            },
        }
    }

    /// Whether filter `f` applies to `tag`: `None` where the filter does not
    /// concern the tag (another dimension, a path out of scope, or a glob path
    /// filter, which the compiled matchers decide).
    pub open spec fn tag_outcome(self, f: FilterView, tag: Tag) -> Result<Option<bool>, TaggedFiltererError> {
        match (tag, f.on) {
            (_, Matcher::Tag) => some_of(filter_matches(f, tag_name(tag))),
            (Tag::Path { path, .. }, Matcher::Path) => match self.resolve(f, path@) {
                None => Ok(None),
                Some(sub) => if is_glob_op(f.op) { Ok(None) } else { some_of(filter_matches(f, sub)) },
            },
            (Tag::Path { file_type: Some(ft), .. }, Matcher::FileType) => some_of(filter_matches(f, file_type_text(ft))),
            (Tag::FileEventKind(k), Matcher::FileEventKind) => some_of(filter_matches(f, k@)),
            (Tag::Source(s), Matcher::Source) => some_of(filter_matches(f, s@)),
            (Tag::Process(pid), Matcher::Process) => some_of(filter_matches(f, decimal(pid as int))),
            (Tag::Signal(s), Matcher::Signal) => some_of(any_match(f, signal_texts(s))),
            (Tag::ProcessCompletion(e), Matcher::ProcessCompletion) => some_of(any_match(f, completion_texts(e))),
            _ => Ok(None),
        }
    }

    /// Whether `tag` passes the filters of dimension `m`.
    pub open spec fn matcher_pass(self, tag: Tag, m: Matcher, v: PathVerdicts) -> Result<bool, TaggedFiltererError> {
        let fs = self.filters_on(m);
        let init = match tag {
            Tag::Path { path, .. } => if m == Matcher::Path { glob_initial(v, path@) } else { true },
            _ => true,
        };
        if fs.len() == 0 {
            Ok(true)
        } else {
            reduce(fs, fs.map_values(|f: FilterView| self.tag_outcome(f, tag)), init)
        }
    }

    pub open spec fn matchers_pass(self, tag: Tag, ms: Seq<Matcher>, v: PathVerdicts) -> Result<bool, TaggedFiltererError>
        decreases ms.len(),
    {
        if ms.len() == 0 {
            Ok(true)
        } else {
            match self.matcher_pass(tag, ms[0], v) {
                Err(e) => Err(e),
                Ok(false) => Ok(false),
                Ok(true) => self.matchers_pass(tag, ms.drop_first(), v),
            }
        }
    }

    /// Whether every tag passes every dimension it is matched on; `vs` holds the
    /// compiled matchers' verdicts, one per tag.
    pub open spec fn tags_pass(self, tags: Seq<Tag>, vs: Seq<PathVerdicts>) -> Result<bool, TaggedFiltererError>
        decreases tags.len(),
    {
        if tags.len() == 0 {
            Ok(true)
        } else {
            match self.matchers_pass(tags[0], tag_matchers(tags[0]), vs[0]) {
                Err(e) => Err(e),
                Ok(false) => Ok(false),
                Ok(true) => self.tags_pass(tags.drop_first(), vs.drop_first()),
            }
        }
    }

    /// Whether a priority passes the priority filters.
    pub open spec fn priority_pass(self, p: Priority) -> Result<bool, TaggedFiltererError> {
        let fs = self.filters_on(Matcher::Priority);
        reduce(fs, fs.map_values(|f: FilterView| some_of(filter_matches(f, priority_text(p)))), true)
    }

    /// The verdict on an event with tags `tags` and priority `p`, given whether the
    /// ignore files let it through and the compiled matchers' verdicts.
    pub open spec fn verdict(
        self,
        tags: Seq<Tag>,
        p: Priority,
        ignore_pass: bool,
        vs: Seq<PathVerdicts>,
    ) -> Result<bool, TaggedFiltererError> {
        if p == Priority::Urgent {
            Ok(true)
        } else {
            match self.priority_pass(p) {
                Err(e) => Err(e),
                Ok(false) => Ok(false),
                Ok(true) => if !ignore_pass {
                    Ok(false)
                } else if self.no_filters() {
                    Ok(true)
                } else {
                    self.tags_pass(tags, vs)
                },
            }
        }
    }

    /// A filterer with no filters and no ignore files, over an origin and a
    /// working directory that are already canonical (absolute).
    pub fn new(origin: String, workdir: String) -> (r: TaggedFilterer)
        requires
            origin@.len() > 0,
            origin@[0] == '/',
        ensures
            r.wf(),
            r.origin_view() == origin@,
            r.workdir_view() == workdir@,
            r.no_filters(),
            !r.has_ignores(),
            !r.compiled(false),
            !r.compiled(true),
    {
        let ignore_filter = ignore_filter_empty(origin.as_str());
        let mut filters: Vec<Vec<Filter>> = Vec::new();
        while filters.len() < MATCHER_COUNT
            invariant
                filters@.len() <= MATCHER_COUNT,
                forall|i: int| 0 <= i < filters@.len() ==> (#[trigger] filters@[i])@.len() == 0,
            decreases MATCHER_COUNT - filters@.len(),
        {
            filters.push(Vec::new());
        }
        let r = TaggedFilterer {
            origin: chars_of(origin.as_str()),
            workdir: chars_of(workdir.as_str()),
            filters,
            ignore_filter,
            ignore_loaded: false,
            glob_compiled: None,
            not_glob_compiled: None,
        };
        assert forall|m: Matcher| #[trigger] r.filters_on(m).len() == 0 by {
            assert(0 <= matcher_slot(m) < 9);
        }
        r
    }

    fn resolve_exec(&self, f: &Filter, path: &Vec<char>) -> (r: Option<Vec<char>>)
        ensures
            r matches Some(v) ==> self.resolve(f@, path@) == Some(v@),
            r is None ==> self.resolve(f@, path@) is None,
    {
        match &f.in_path {
            Some(ctx) => path_strip(path, &chars_of(ctx.as_str())),
            None => match path_strip(path, &self.workdir) {
                Some(s) => Some(s),
                None => match path_strip(path, &self.origin) {
                    Some(s) => Some(s),
                    None => {
                        let root = vec!['/'];
                        assert(root@ == seq!['/']);
                        match path_strip(path, &root) {
                            Some(s) => Some(s),
                            None => Some(path.clone()),
                        }
                    },
                },
            },
        }
    }

    fn any_match_exec(f: &Filter, texts: &Vec<Vec<char>>) -> (r: Result<bool, TaggedFiltererError>)
        ensures
            r == any_match(f@, texts@.map_values(|v: Vec<char>| v@)),
    {
        let ghost ts = texts@.map_values(|v: Vec<char>| v@);
        let mut i: usize = 0;
        assert(ts.skip(0) =~= ts);
        while i < texts.len()
            invariant
                i <= texts@.len(),
                ts == texts@.map_values(|v: Vec<char>| v@),
                any_match(f@, ts) == any_match(f@, ts.skip(i as int)),
            decreases texts@.len() - i,
        {
            assert(ts.skip(i as int).drop_first() =~= ts.skip(i + 1));
            assert(ts.skip(i as int)[0] == texts@[i as int]@);
            match f.matches_chars(&texts[i]) {
                Err(e) => return Err(e),
                Ok(true) => return Ok(true),
                Ok(false) => {},
            }
            i = i + 1;
        }
        assert(ts.skip(i as int).len() == 0);
        Ok(false)
    }

    /// Whether filter `f` applies to `tag` (see [`TaggedFilterer::tag_outcome`]).
    pub fn match_tag(&self, f: &Filter, tag: &Tag) -> (r: Result<Option<bool>, TaggedFiltererError>)
        ensures
            r == self.tag_outcome(f@, *tag),
    {
        let res = match (tag, f.on) {
            (_, Matcher::Tag) => f.matches_chars(&tag.discriminant_name()),
            (Tag::Path { path, .. }, Matcher::Path) => {
                let p = chars_of(path.as_str());
                match self.resolve_exec(f, &p) {
                    None => return Ok(None),
                    Some(sub) => match f.op {
                        Op::Glob | Op::NotGlob => return Ok(None),
                        _ => f.matches_chars(&sub),
                    },
                }
            },
            (Tag::Path { file_type: Some(ft), .. }, Matcher::FileType) => f.matches_chars(&file_type_chars(*ft)),
            (Tag::FileEventKind(k), Matcher::FileEventKind) => f.matches_chars(&chars_of(k.as_str())),
            (Tag::Source(s), Matcher::Source) => f.matches_chars(&chars_of(s.as_str())),
            (Tag::Process(pid), Matcher::Process) => f.matches_chars(&render_decimal(*pid as i64)),
            (Tag::Signal(s), Matcher::Signal) => {
                let texts = signal_subjects(*s);
                assert(texts@.map_values(|v: Vec<char>| v@) =~= signal_texts(*s));
                Self::any_match_exec(f, &texts)
            },
            (Tag::ProcessCompletion(e), Matcher::ProcessCompletion) => {
                let texts = completion_subjects(*e);
                assert(texts@.map_values(|v: Vec<char>| v@) =~= completion_texts(*e));
                Self::any_match_exec(f, &texts)
            },
            _ => return Ok(None),
        };
        match res {
            Ok(b) => Ok(Some(b)),
            Err(e) => Err(e),
        }
    }

    fn glob_initial_exec(v: &PathVerdicts, path: &Vec<char>) -> (r: bool)
        ensures
            r == glob_initial(*v, path@),
    {
        let after_glob = match &v.glob {
            Some(GlobMatch::Unmatched) => false,
            _ => true,
        };
        match &v.not_glob {
            Some(GlobMatch::Ignore(from)) => {
                let scoped = match from {
                    None => true,
                    Some(f) => path_strip(path, &chars_of(f.as_str())).is_some(),
                };
                if scoped { false } else { after_glob }
            },
            _ => after_glob,
        }
    }

    fn matcher_pass_exec(&self, tag: &Tag, m: Matcher, v: &PathVerdicts) -> (r: Result<bool, TaggedFiltererError>)
        requires
            self.wf(),
        ensures
            r == self.matcher_pass(*tag, m, *v),
    {
        let fs = &self.filters[m.slot()];
        let ghost fsv = self.filters_on(m);
        let ghost outs = fsv.map_values(|f: FilterView| self.tag_outcome(f, *tag));
        if fs.len() == 0 {
            return Ok(true);
        }
        let init = match tag {
            Tag::Path { path, .. } => match m {
                Matcher::Path => Self::glob_initial_exec(v, &chars_of(path.as_str())),
                _ => true,
            },
            _ => true,
        };
        let mut acc = init;
        let mut i: usize = 0;
        assert(self.matcher_pass(*tag, m, *v) == reduce(fsv, outs, init));
        assert(fsv.skip(0) =~= fsv);
        assert(outs.skip(0) =~= outs);
        while i < fs.len()
            invariant
                i <= fs@.len(),
                fsv == fs@.map_values(|f: Filter| f@),
                outs == fsv.map_values(|f: FilterView| self.tag_outcome(f, *tag)),
                self.matcher_pass(*tag, m, *v) == reduce(fsv, outs, init),
                reduce(fsv, outs, init) == reduce(fsv.skip(i as int), outs.skip(i as int), acc),
            decreases fs@.len() - i,
        {
            assert(fsv.skip(i as int).drop_first() =~= fsv.skip(i + 1));
            assert(outs.skip(i as int).drop_first() =~= outs.skip(i + 1));
            assert(fsv.skip(i as int)[0] == fs@[i as int]@);
            assert(outs.skip(i as int)[0] == outs[i as int]);
            let o = self.match_tag(&fs[i], tag);
            assert(o == outs[i as int]);
            match o {
                Err(e) => return Err(e),
                Ok(None) => {},
                Ok(Some(a)) => {
                    if fs[i].negate {
                        if a {
                            return Ok(true);
                        }
                    } else {
                        acc = acc && a;
                    }
                },
            }
            i = i + 1;
        }
        assert(fsv.skip(i as int).len() == 0);
        Ok(acc)
    }

    fn priority_pass_exec(&self, p: Priority) -> (r: Result<bool, TaggedFiltererError>)
        requires
            self.wf(),
        ensures
            r == self.priority_pass(p),
    {
        let fs = &self.filters[Matcher::Priority.slot()];
        let ghost fsv = self.filters_on(Matcher::Priority);
        let ghost outs = fsv.map_values(|f: FilterView| some_of(filter_matches(f, priority_text(p))));
        let subject = priority_chars(p);
        let mut acc = true;
        let mut i: usize = 0;
        assert(fsv.skip(0) =~= fsv);
        assert(outs.skip(0) =~= outs);
        while i < fs.len()
            invariant
                i <= fs@.len(),
                subject@ == priority_text(p),
                fsv == fs@.map_values(|f: Filter| f@),
                outs == fsv.map_values(|f: FilterView| some_of(filter_matches(f, priority_text(p)))),
                self.priority_pass(p) == reduce(fsv, outs, true),
                reduce(fsv, outs, true) == reduce(fsv.skip(i as int), outs.skip(i as int), acc),
            decreases fs@.len() - i,
        {
            assert(fsv.skip(i as int).drop_first() =~= fsv.skip(i + 1));
            assert(outs.skip(i as int).drop_first() =~= outs.skip(i + 1));
            assert(fsv.skip(i as int)[0] == fs@[i as int]@);
            assert(outs.skip(i as int)[0] == outs[i as int]);
            match fs[i].matches_chars(&subject) {
                Err(e) => return Err(e),
                Ok(a) => {
                    if fs[i].negate {
                        if a {
                            return Ok(true);
                        }
                    } else {
                        acc = acc && a;
                    }
                },
            }
            i = i + 1;
        }
        assert(fsv.skip(i as int).len() == 0);
        Ok(acc)
    }

    fn matchers_pass_exec(&self, tag: &Tag, v: &PathVerdicts) -> (r: Result<bool, TaggedFiltererError>)
        requires
            self.wf(),
        ensures
            r == self.matchers_pass(*tag, tag_matchers(*tag), *v),
    {
        let ms = Matcher::from_tag(tag);
        let mut i: usize = 0;
        assert(ms@.skip(0) =~= ms@);
        while i < ms.len()
            invariant
                self.wf(),
                i <= ms@.len(),
                ms@ == tag_matchers(*tag),
                self.matchers_pass(*tag, ms@, *v) == self.matchers_pass(*tag, ms@.skip(i as int), *v),
            decreases ms@.len() - i,
        {
            assert(ms@.skip(i as int).drop_first() =~= ms@.skip(i + 1));
            match self.matcher_pass_exec(tag, ms[i], v) {
                Err(e) => return Err(e),
                Ok(false) => return Ok(false),
                Ok(true) => {},
            }
            i = i + 1;
        }
        assert(ms@.skip(i as int).len() == 0);
        Ok(true)
    }

    fn any_filters(&self) -> (r: bool)
        requires
            self.wf(),
        ensures
            r == !self.no_filters(),
    {
        let mut i: usize = 0;
        while i < self.filters.len()
            invariant
                self.wf(),
                i <= MATCHER_COUNT,
                forall|j: int| 0 <= j < i ==> (#[trigger] self.filters@[j])@.len() == 0,
            decreases MATCHER_COUNT - i,
        {
            if self.filters[i].len() > 0 {
                let ghost m = if i == 0 { Matcher::Tag } else if i == 1 { Matcher::Path } else if i == 2 {
                    Matcher::FileType } else if i == 3 { Matcher::FileEventKind } else if i == 4 {
                    Matcher::Source } else if i == 5 { Matcher::Process } else if i == 6 {
                    Matcher::Signal } else if i == 7 { Matcher::ProcessCompletion } else { Matcher::Priority };
                assert(self.filters_on(m).len() > 0);
                return true;
            }
            i = i + 1;
        }
        assert forall|m: Matcher| #[trigger] self.filters_on(m).len() == 0 by {
            assert(0 <= matcher_slot(m) < 9);
        }
        false
    }

    /// The verdict on an event, given whether the ignore files let it through and
    /// the compiled glob matchers' verdicts on each of its tags.
    pub fn check(
        &self,
        event: &Event,
        priority: Priority,
        ignore_pass: bool,
        verdicts: &Vec<PathVerdicts>,
    ) -> (r: Result<bool, TaggedFiltererError>)
        requires
            self.wf(),
            verdicts@.len() == event.tags@.len(),
        ensures
            r == self.verdict(event.tags@, priority, ignore_pass, verdicts@),
    {
        if let Priority::Urgent = priority {
            return Ok(true);
        }
        match self.priority_pass_exec(priority) {
            Err(e) => return Err(e),
            Ok(false) => return Ok(false),
            Ok(true) => {},
        }
        if !ignore_pass {
            return Ok(false);
        }
        if !self.any_filters() {
            return Ok(true);
        }
        let ghost tags = event.tags@;
        let ghost vs = verdicts@;
        let mut i: usize = 0;
        assert(tags.skip(0) =~= tags);
        assert(vs.skip(0) =~= vs);
        while i < event.tags.len()
            invariant
                self.wf(),
                i <= tags.len(),
                tags == event.tags@,
                vs == verdicts@,
                vs.len() == tags.len(),
                self.verdict(tags, priority, ignore_pass, vs) == self.tags_pass(tags, vs),
                self.tags_pass(tags, vs) == self.tags_pass(tags.skip(i as int), vs.skip(i as int)),
            decreases tags.len() - i,
        {
            assert(tags.skip(i as int).drop_first() =~= tags.skip(i + 1));
            assert(vs.skip(i as int).drop_first() =~= vs.skip(i + 1));
            assert(tags.skip(i as int)[0] == tags[i as int]);
            assert(vs.skip(i as int)[0] == vs[i as int]);
            match self.matchers_pass_exec(&event.tags[i], &verdicts[i]) {
                Err(e) => return Err(e),
                Ok(false) => return Ok(false),
                Ok(true) => {},
            }
            i = i + 1;
        }
        assert(tags.skip(i as int).len() == 0);
        Ok(true)
    }

    /// The compiled glob (`not` false) or not-glob matcher.
    pub closed spec fn compiled_matcher(self, not: bool) -> Option<ignore::gitignore::Gitignore> {
        if not { self.not_glob_compiled } else { self.glob_compiled }
    }

    /// Whether the glob (`not` false) or not-glob matcher is compiled.
    pub open spec fn compiled(self, not: bool) -> bool {
        self.compiled_matcher(not) is Some
    }

    /// The compiled matcher of one polarity is the one the path filters call for:
    /// absent where no path filter has that operator and a glob pattern, else
    /// rooted at the origin and holding those filters' lines in order.
    pub open spec fn compiled_from_filters(self, not: bool) -> bool {
        let ls = glob_lines(self.filters_on(Matcher::Path), if not { Op::NotGlob } else { Op::Glob });
        match self.compiled_matcher(not) {
            None => ls.len() == 0,
            Some(g) => {
                &&& ls.len() > 0
                &&& gitignore_root(g) == self.origin_view()
                &&& gitignore_lines(g) == kept_lines(ls)
            },
        }
    }

    /// Same origin, working directory and ignore files.
    pub open spec fn same_setting(self, other: TaggedFilterer) -> bool {
        &&& self.origin_view() == other.origin_view()
        &&& self.workdir_view() == other.workdir_view()
        &&& self.has_ignores() == other.has_ignores()
        &&& self.ignores() == other.ignores()
    }

    /// Same filters on every dimension.
    pub open spec fn same_filters(self, other: TaggedFilterer) -> bool {
        forall|m: Matcher| #[trigger] self.filters_on(m) == other.filters_on(m)
    }

    /// `after` holds the filters of `before` and then the filters `cs`, each on
    /// its own dimension in the order given.
    pub open spec fn filters_added(before: TaggedFilterer, cs: Seq<FilterView>, after: TaggedFilterer) -> bool {
        &&& after.same_setting(before)
        &&& forall|m: Matcher| #[trigger] after.filters_on(m) == before.filters_on(m) + on_dimension(cs, m)
    }

    /// `after` is `before` with every filter and compiled matcher removed.
    pub open spec fn filters_cleared(before: TaggedFilterer, after: TaggedFilterer) -> bool {
        &&& after.same_setting(before)
        &&& after.no_filters()
        &&& !after.compiled(false)
        &&& !after.compiled(true)
    }

    /// The gitignore lines of the path filters with operator `op_filter`.
    fn polarity_lines(&self, op_filter: Op) -> (r: Vec<(Option<String>, String)>)
        requires
            self.wf(),
        ensures
            r@.map_values(|l: (Option<String>, String)| (scope_view(l.0), l.1@))
                == glob_lines(self.filters_on(Matcher::Path), op_filter),
    {
        let fs = &self.filters[Matcher::Path.slot()];
        let ghost fsv = self.filters_on(Matcher::Path);
        let mut out: Vec<(Option<String>, String)> = Vec::new();
        let mut i: usize = 0;
        assert(fsv.take(0) =~= seq![]);
        while i < fs.len()
            invariant
                i <= fs@.len(),
                fsv == fs@.map_values(|f: Filter| f@),
                out@.map_values(|l: (Option<String>, String)| (scope_view(l.0), l.1@))
                    == glob_lines(fsv.take(i as int), op_filter),
            decreases fs@.len() - i,
        {
            let ghost before = out@.map_values(|l: (Option<String>, String)| (scope_view(l.0), l.1@));
            assert(fsv.take(i + 1).drop_last() =~= fsv.take(i as int));
            assert(fsv.take(i + 1).last() == fs@[i as int]@);
            let f = &fs[i];
            if f.op == op_filter {
                if let Pattern::Glob(g) = &f.pat {
                    let line = if f.negate {
                        let mut l = vec!['!'];
                        let mut rest = chars_of(g.as_str());
                        l.append(&mut rest);
                        string_of(&l)
                    } else {
                        g.clone()
                    };
                    let from = match &f.in_path {
                        Some(p) => Some(p.clone()),
                        None => None,
                    };
                    assert(line@ == glob_line(fs@[i as int]@)) by {
                        if f.negate {
                            assert(line@ =~= seq!['!'] + g@);
                        }
                    }
                    assert(scope_view(from) == fs@[i as int]@.in_path);
                    out.push((from, line));
                    assert(out@.map_values(|l: (Option<String>, String)| (scope_view(l.0), l.1@))
                        =~= before.push((fs@[i as int]@.in_path, glob_line(fs@[i as int]@))));
                }
            }
            i = i + 1;
        }
        assert(fsv.take(i as int) =~= fsv);
        out
    }

    /// Rebuilds the compiled matcher of one polarity from the path filters with
    /// that operator. Where a line or the build fails, the matcher is kept.
    fn recompile_globs(&mut self, op_filter: Op) -> (r: Result<(), TaggedFiltererError>)
        requires
            old(self).wf(),
            is_glob_op(op_filter),
        ensures
            final(self).wf(),
            final(self).same_setting(*old(self)),
            final(self).same_filters(*old(self)),
            final(self).compiled_matcher(op_filter != Op::NotGlob)
                == old(self).compiled_matcher(op_filter != Op::NotGlob),
            r is Ok ==> final(self).compiled_from_filters(op_filter == Op::NotGlob),
            r is Err ==> r == Err::<(), TaggedFiltererError>(TaggedFiltererError::GlobParse)
                && final(self).compiled_matcher(op_filter == Op::NotGlob)
                == old(self).compiled_matcher(op_filter == Op::NotGlob),
            r is Ok <==> lines_ok(glob_lines(old(self).filters_on(Matcher::Path), op_filter)),
    {
        let not = match op_filter {
            Op::NotGlob => true,
            _ => false,
        };
        let lines = self.polarity_lines(op_filter);
        let ghost ls = glob_lines(self.filters_on(Matcher::Path), op_filter);
        assert(lines@.len() == ls.len());
        if lines.len() == 0 {
            if not {
                self.not_glob_compiled = None;
            } else {
                self.glob_compiled = None;
            }
            proof {
                lemma_in_place_kept(*old(self), *self);
            }
            return Ok(());
        }
        let origin = string_of(&self.origin);
        let mut builder = gitignore_builder(origin.as_str());
        let n = lines.len();
        let mut i: usize = 0;
        assert(ls.take(0) =~= seq![]);
        while i < n
            invariant
                *self == *old(self),
                self.wf(),
                ls == glob_lines(old(self).filters_on(Matcher::Path), op_filter),
                ls.len() > 0,
                n == lines@.len(),
                i <= n,
                lines@.map_values(|l: (Option<String>, String)| (scope_view(l.0), l.1@)) == ls,
                builder_root(builder) == self.origin@,
                builder_lines(builder) == kept_lines(ls.take(i as int)),
                forall|k: int| 0 <= k < i ==> gitignore_line_parses(#[trigger] ls[k].1),
            decreases n - i,
        {
            let from = match &lines[i].0 {
                Some(p) => Some(p.clone()),
                None => None,
            };
            let ghost prev = builder;
            assert(lines@[i as int].1@ == ls[i as int].1);
            match builder_add_line(&mut builder, from, lines[i].1.as_str()) {
                Err(_) => return Err(TaggedFiltererError::GlobParse),
                Ok(()) => {},
            }
            proof {
                assert(ls.take(i + 1).drop_last() =~= ls.take(i as int));
                assert(ls.take(i + 1).last() == ls[i as int]);
            }
            i = i + 1;
        }
        assert(ls.take(n as int) =~= ls);
        match builder_build(&builder) {
            Err(_) => Err(TaggedFiltererError::GlobParse),
            Ok(g) => {
                if not {
                    self.not_glob_compiled = Some(g);
                } else {
                    self.glob_compiled = Some(g);
                }
                proof {
                    lemma_in_place_kept(*old(self), *self);
                }
                Ok(())
            },
        }
    }

    /// Adds filters, each canonicalised, at the end of its dimension's list, and
    /// recompiles the glob matchers that a glob or not-glob filter was added for.
    ///
    /// Nothing changes where a filter has no canonical form. Where a glob matcher
    /// fails to compile, the filters stay added and that matcher is not replaced.
    pub fn add_filters(&mut self, filters: &Vec<Filter>) -> (r: Result<(), TaggedFiltererError>)
        requires
            old(self).wf(),
        ensures
            final(self).wf(),
            match canonical_all(filters@.map_values(|f: Filter| f@)) {
                Err(e) => r == Err::<(), TaggedFiltererError>(e) && *final(self) == *old(self),
                Ok(cs) => {
                    &&& Self::filters_added(*old(self), cs, *final(self))
                    &&& (r is Err ==> r == Err::<(), TaggedFiltererError>(TaggedFiltererError::GlobParse))
                    &&& (r is Ok <==> {
                        &&& (has_op(filters@.map_values(|f: Filter| f@), Op::Glob)
                            ==> lines_ok(glob_lines(final(self).filters_on(Matcher::Path), Op::Glob)))
                        &&& (has_op(filters@.map_values(|f: Filter| f@), Op::NotGlob)
                            ==> lines_ok(glob_lines(final(self).filters_on(Matcher::Path), Op::NotGlob)))
                    })
                },
            },
            r is Ok && has_op(filters@.map_values(|f: Filter| f@), Op::Glob) ==> final(self).compiled_from_filters(false),
            r is Ok && has_op(filters@.map_values(|f: Filter| f@), Op::NotGlob) ==> final(self).compiled_from_filters(true),
            !has_op(filters@.map_values(|f: Filter| f@), Op::Glob)
                ==> final(self).compiled_matcher(false) == old(self).compiled_matcher(false),
            !has_op(filters@.map_values(|f: Filter| f@), Op::NotGlob)
                ==> final(self).compiled_matcher(true) == old(self).compiled_matcher(true),
    {
        let ghost fv = filters@.map_values(|f: Filter| f@);
        let mut recompile_globs = false;
        let mut recompile_not_globs = false;
        let mut canon: Vec<Filter> = Vec::new();
        let mut i: usize = 0;
        assert(fv.skip(0) =~= fv);
        while i < filters.len()
            invariant
                *self == *old(self),
                self.wf(),
                i <= filters@.len(),
                fv == filters@.map_values(|f: Filter| f@),
                canon@.len() <= i,
                match canonical_all(fv.skip(i as int)) {
                    Err(e) => canonical_all(fv) == Err::<Seq<FilterView>, TaggedFiltererError>(e),
                    Ok(rest) => canonical_all(fv) == Ok::<Seq<FilterView>, TaggedFiltererError>(
                        canon@.map_values(|f: Filter| f@) + rest),
                },
                forall|k: int| 0 <= k < canon@.len() ==> canonical(#[trigger] canon@[k]@)
                    == Ok::<FilterView, TaggedFiltererError>(canon@[k]@),
                recompile_globs == has_op(fv.take(i as int), Op::Glob),
                recompile_not_globs == has_op(fv.take(i as int), Op::NotGlob),
            decreases filters@.len() - i,
        {
            assert(fv.skip(i as int).drop_first() =~= fv.skip(i + 1));
            assert(fv.skip(i as int)[0] == filters@[i as int]@);
            let f = filters[i].duplicate();
            match f.op {
                Op::Glob => {
                    recompile_globs = true;
                },
                Op::NotGlob => {
                    recompile_not_globs = true;
                },
                _ => {},
            }
            assert(fv.take(i + 1) =~= fv.take(i as int).push(fv[i as int]));
            assert(f.op == fv[i as int].op);
            assert(fv.take(i + 1)[i as int] == fv[i as int]);
            assert forall|k: int| 0 <= k < i implies fv.take(i + 1)[k] == #[trigger] fv.take(i as int)[k] by {}
            assert(recompile_globs == has_op(fv.take(i + 1), Op::Glob)) by {
                if has_op(fv.take(i + 1), Op::Glob) && fv[i as int].op != Op::Glob {
                    let k = choose|k: int| 0 <= k < i + 1 && (#[trigger] fv.take(i + 1)[k]).op == Op::Glob;
                    assert(fv.take(i as int)[k].op == Op::Glob);
                }
            }
            assert(recompile_not_globs == has_op(fv.take(i + 1), Op::NotGlob)) by {
                if has_op(fv.take(i + 1), Op::NotGlob) && fv[i as int].op != Op::NotGlob {
                    let k = choose|k: int| 0 <= k < i + 1 && (#[trigger] fv.take(i + 1)[k]).op == Op::NotGlob;
                    assert(fv.take(i as int)[k].op == Op::NotGlob);
                }
            }
            match f.canonicalised() {
                Err(e) => return Err(e),
                Ok(c) => {
                    proof {
                        lemma_canonical_idempotent(f@);
                    }
                    let ghost before = canon@.map_values(|f: Filter| f@);
                    canon.push(c);
                    assert(canon@.map_values(|f: Filter| f@) =~= before.push(c@));
                    proof {
                        if let Ok(rest) = canonical_all(fv.skip(i + 1)) {
                            assert(before + (seq![c@] + rest) =~= before.push(c@) + rest);
                        }
                    }
                },
            }
            i = i + 1;
        }
        assert(fv.take(i as int) =~= fv);
        let ghost cs = canon@.map_values(|f: Filter| f@);
        assert(canonical_all(fv.skip(i as int)) == Ok::<Seq<FilterView>, TaggedFiltererError>(seq![]));
        assert(cs + seq![] =~= cs);
        let mut j: usize = 0;
        assert(cs.take(0) =~= seq![]);
        while j < canon.len()
            invariant
                self.wf(),
                self.same_setting(*old(self)),
                self.compiled_matcher(false) == old(self).compiled_matcher(false),
                self.compiled_matcher(true) == old(self).compiled_matcher(true),
                j <= canon@.len(),
                cs == canon@.map_values(|f: Filter| f@),
                forall|k: int| 0 <= k < cs.len() ==> canonical(#[trigger] cs[k]) == Ok::<FilterView, TaggedFiltererError>(cs[k]),
                forall|m: Matcher| #[trigger] self.filters_on(m) == old(self).filters_on(m) + on_dimension(cs.take(j as int), m),
            decreases canon@.len() - j,
        {
            let c = canon[j].duplicate();
            let s = c.on.slot();
            let ghost prev = *self;
            assert(canonical(cs[j as int]) == Ok::<FilterView, TaggedFiltererError>(cs[j as int]));
            self.filters[s].push(c);
            proof {
                assert forall|m: Matcher, k: int| 0 <= k < self.filters_on(m).len() implies {
                    &&& (#[trigger] self.filters_on(m)[k]).on == m
                    &&& canonical(self.filters_on(m)[k]) == Ok::<FilterView, TaggedFiltererError>(self.filters_on(m)[k])
                } by {
                    if matcher_slot(m) == s as int {
                        assert(self.filters_on(m) =~= prev.filters_on(m).push(cs[j as int]));
                        if k < prev.filters_on(m).len() {
                            assert(self.filters_on(m)[k] == prev.filters_on(m)[k]);
                        } else {
                            assert(cs[j as int].on == c.on);
                            assert(matcher_slot(cs[j as int].on) == matcher_slot(m));
                        }
                    } else {
                        assert(self.filters_on(m) == prev.filters_on(m));
                    }
                }
            }
            assert(cs.take(j + 1).drop_last() =~= cs.take(j as int));
            assert forall|m: Matcher| #[trigger] self.filters_on(m) == old(self).filters_on(m) + on_dimension(cs.take(j + 1), m) by {
                if matcher_slot(m) == s as int {
                    assert(self.filters_on(m) =~= prev.filters_on(m).push(cs[j as int]));
                } else {
                    assert(self.filters_on(m) == prev.filters_on(m));
                }
            }
            j = j + 1;
        }
        assert(cs.take(j as int) =~= cs);
        if recompile_globs {
            let r = self.recompile_globs(Op::Glob);
            if r.is_err() {
                return r;
            }
        }
        if recompile_not_globs {
            let r = self.recompile_globs(Op::NotGlob);
            if r.is_err() {
                return r;
            }
        }
        Ok(())
    }

    /// Removes every filter, and with them the compiled glob matchers.
    pub fn clear_filters(&mut self) -> (r: Result<(), TaggedFiltererError>)
        requires
            old(self).wf(),
        ensures
            final(self).wf(),
            r is Ok,
            Self::filters_cleared(*old(self), *final(self)),
    {
        let mut i: usize = 0;
        while i < self.filters.len()
            invariant
                self.wf(),
                self.same_setting(*old(self)),
                i <= MATCHER_COUNT,
                forall|j: int| 0 <= j < i ==> (#[trigger] self.filters@[j])@.len() == 0,
            decreases MATCHER_COUNT - i,
        {
            let ghost prev = *self;
            self.filters.set(i, Vec::new());
            proof {
                assert forall|m: Matcher| #[trigger] self.filters_on(m).len() == 0 || self.filters_on(m) == prev.filters_on(m) by {
                    if matcher_slot(m) != i as int {
                        assert(self.filters_on(m) == prev.filters_on(m));
                    }
                }
                lemma_in_place_kept(prev, *self);
            }
            i = i + 1;
        }
        assert forall|m: Matcher| #[trigger] self.filters_on(m).len() == 0 by {
            assert(0 <= matcher_slot(m) < 9);
        }
        let a = self.recompile_globs(Op::Glob);
        let b = self.recompile_globs(Op::NotGlob);
        assert(a is Ok && b is Ok);
        Ok(())
    }

    /// The filters on dimension `m`, in the order they were added.
    pub fn filters_for(&self, m: Matcher) -> (r: &Vec<Filter>)
        requires
            self.wf(),
        ensures
            r@.map_values(|f: Filter| f@) == self.filters_on(m),
    {
        &self.filters[m.slot()]
    }

    /// The ignore-file sub-filterer, to extend with further ignore files.
    pub fn ignore_filter(&self) -> (r: &ignore_files::IgnoreFilter)
        ensures
            *r == self.ignores(),
    {
        &self.ignore_filter
    }

    /// Puts in place an ignore-file sub-filterer that has ignore files loaded.
    pub fn swap_ignore_filter(&mut self, filter: ignore_files::IgnoreFilter)
        requires
            old(self).wf(),
        ensures
            final(self).wf(),
            final(self).has_ignores(),
            final(self).ignores() == filter,
            final(self).origin_view() == old(self).origin_view(),
            final(self).workdir_view() == old(self).workdir_view(),
            final(self).same_filters(*old(self)),
            final(self).compiled_matcher(false) == old(self).compiled_matcher(false),
            final(self).compiled_matcher(true) == old(self).compiled_matcher(true),
    {
        self.ignore_filter = filter;
        self.ignore_loaded = true;
        proof {
            lemma_in_place_kept(*old(self), *self);
        }
    }

    /// Whether `path` lies below the origin with no doubled separator after it, so
    /// that the compiled matchers may also try its ancestors.
    pub open spec fn below_origin(self, path: Seq<char>) -> bool {
        strip_path(path, self.origin_view()) matches Some(rest) && (rest.len() == 0 || rest[0] != '/')
    }

    /// The verdict of the compiled glob (`not` false) or not-glob matcher on a
    /// path: on the path or its ancestors below the origin, else on the path
    /// alone; none where the matcher is not compiled.
    pub open spec fn matcher_verdict(self, not: bool, path: Seq<char>, is_dir: bool) -> Option<GlobMatch> {
        match self.compiled_matcher(not) {
            None => None,
            Some(g) => Some(
                if self.below_origin(path) {
                    gitignore_tree_verdict(gitignore_root(g), gitignore_lines(g), path, is_dir)
                } else {
                    gitignore_path_verdict(gitignore_root(g), gitignore_lines(g), path, is_dir)
                },
            ),
        }
    }

    /// The compiled matchers' verdicts on a tag: none for a tag that is not a path.
    pub open spec fn tag_verdicts(self, tag: Tag) -> PathVerdicts {
        match tag {
            Tag::Path { path, file_type } => {
                let is_dir = file_type == Some(FileType::Dir);
                PathVerdicts {
                    glob: self.matcher_verdict(false, path@, is_dir),
                    not_glob: self.matcher_verdict(true, path@, is_dir),
                }
            },
            _ => no_verdicts(),
        }
    }

    /// The compiled matchers' verdicts on each tag, in order.
    pub open spec fn event_verdicts(self, tags: Seq<Tag>) -> Seq<PathVerdicts> {
        tags.map_values(|t: Tag| self.tag_verdicts(t))
    }

    fn path_verdicts(&self, tag: &Tag) -> (r: PathVerdicts)
        requires
            self.wf(),
        ensures
            r == self.tag_verdicts(*tag),
    {
        match tag {
            Tag::Path { path, file_type } => {
                let is_dir = match file_type {
                    Some(FileType::Dir) => true,
                    _ => false,
                };
                // Below the origin, with no doubled separator after it: the compiled
                // matchers can then also try the path's ancestors.
                let under = match path_strip(&chars_of(path.as_str()), &self.origin) {
                    Some(rest) => rest.len() == 0 || rest[0] != '/',
                    None => false,
                };
                assert(under == self.below_origin(path@));
                assert(is_dir == (*file_type == Some(FileType::Dir)));
                let glob = match &self.glob_compiled {
                    Some(g) => Some(if under {
                        gitignore_matched_or_parents(g, path.as_str(), is_dir)
                    } else {
                        gitignore_matched(g, path.as_str(), is_dir)
                    }),
                    None => None,
                };
                let not_glob = match &self.not_glob_compiled {
                    Some(g) => Some(if under {
                        gitignore_matched_or_parents(g, path.as_str(), is_dir)
                    } else {
                        gitignore_matched(g, path.as_str(), is_dir)
                    }),
                    None => None,
                };
                PathVerdicts { glob, not_glob }
            },
            _ => PathVerdicts { glob: None, not_glob: None },
        }
    }

    /// Whether the ignore files let an event through, given their verdicts on
    /// its paths: it fails where any path is ignored.
    pub fn ignore_verdict(verdicts: &Vec<GlobMatch>) -> (r: bool)
        ensures
            r == ignores_let_through(verdicts@),
    {
        let mut i: usize = 0;
        while i < verdicts.len()
            invariant
                i <= verdicts@.len(),
                forall|j: int| 0 <= j < i ==> !(#[trigger] verdicts@[j] is Ignore),
            decreases verdicts@.len() - i,
        {
            if let GlobMatch::Ignore(_) = &verdicts[i] {
                return false;
            }
            i = i + 1;
        }
        true
    }

    fn ignore_pass(&self, event: &Event) -> (r: bool)
        ensures
            !self.has_ignores() ==> r,
    {
        if !self.ignore_loaded {
            return true;
        }
        let mut verdicts: Vec<GlobMatch> = Vec::new();
        let mut i: usize = 0;
        while i < event.tags.len()
            invariant
                i <= event.tags@.len(),
            decreases event.tags@.len() - i,
        {
            if let Tag::Path { path, file_type } = &event.tags[i] {
                let is_dir = match file_type {
                    Some(FileType::Dir) => true,
                    _ => false,
                };
                verdicts.push(ignore_filter_match(&self.ignore_filter, path.as_str(), is_dir));
            }
            i = i + 1;
        }
        Self::ignore_verdict(&verdicts)
    }

    /// Whether an event passes: urgent events always do; otherwise the priority
    /// filters, then the ignore files (an event fails where one of its paths is
    /// ignored), then the filters of each dimension of each tag decide.
    pub fn check_event(&self, event: &Event, priority: Priority) -> (r: Result<bool, TaggedFiltererError>)
        requires
            self.wf(),
        ensures
            priority == Priority::Urgent ==> r == Ok::<bool, TaggedFiltererError>(true),
            !self.has_ignores() && self.no_filters() ==> r == Ok::<bool, TaggedFiltererError>(true),
            exists|ignore_pass: bool| {
                &&& (!self.has_ignores() ==> ignore_pass)
                &&& r == #[trigger] self.verdict(
                    event.tags@,
                    priority,
                    ignore_pass,
                    self.event_verdicts(event.tags@),
                )
            },
            !self.has_ignores() ==> r == self.verdict(
                event.tags@,
                priority,
                true,
                self.event_verdicts(event.tags@),
            ),
            !self.has_ignores() && !self.compiled(false) && !self.compiled(true) ==> r == self.verdict(
                event.tags@,
                priority,
                true,
                Seq::new(event.tags@.len(), |i: int| no_verdicts()),
            ),
    {
        if let Priority::Urgent = priority {
            proof {
                let vs = Seq::new(event.tags@.len(), |i: int| no_verdicts());
                assert(self.verdict(event.tags@, priority, true, vs) == Ok::<bool, TaggedFiltererError>(true));
                let ws = self.event_verdicts(event.tags@);
                assert(self.verdict(event.tags@, priority, true, ws) == Ok::<bool, TaggedFiltererError>(true));
            }
            return Ok(true);
        }
        let ignore_pass = self.ignore_pass(event);
        let mut verdicts: Vec<PathVerdicts> = Vec::new();
        let mut i: usize = 0;
        while i < event.tags.len()
            invariant
                self.wf(),
                i <= event.tags@.len(),
                verdicts@.len() == i,
                forall|j: int| 0 <= j < i ==> #[trigger] verdicts@[j] == self.tag_verdicts(event.tags@[j]),
            decreases event.tags@.len() - i,
        {
            let v = self.path_verdicts(&event.tags[i]);
            verdicts.push(v);
            i = i + 1;
        }
        let r = self.check(event, priority, ignore_pass, &verdicts);
        assert(verdicts@ =~= self.event_verdicts(event.tags@));
        assert(!self.compiled(false) && !self.compiled(true) ==> verdicts@ =~= Seq::new(
            event.tags@.len(),
            |i: int| no_verdicts(),
        ));
        r
    }

}

/// Filters stay in place where each dimension keeps its filters or loses them all.
proof fn lemma_in_place_kept(a: TaggedFilterer, b: TaggedFilterer)
    requires
        a.filters_in_place(),
        forall|m: Matcher| #[trigger] b.filters_on(m).len() == 0 || b.filters_on(m) == a.filters_on(m),
    ensures
        b.filters_in_place(),
{
    assert forall|m: Matcher, i: int| 0 <= i < b.filters_on(m).len() implies {
        &&& (#[trigger] b.filters_on(m)[i]).on == m
        &&& canonical(b.filters_on(m)[i]) == Ok::<FilterView, TaggedFiltererError>(b.filters_on(m)[i])
    } by {
        assert(b.filters_on(m) == a.filters_on(m));
    }
}

/// Once a negated filter applies, the dimension passes, whatever the filters
/// after it would say, provided none before it failed with an error.
pub proof fn lemma_negate_short_circuit(
    fs: Seq<FilterView>,
    outs: Seq<Result<Option<bool>, TaggedFiltererError>>,
    acc: bool,
    i: int,
)
    requires
        0 <= i < fs.len(),
        outs.len() == fs.len(),
        fs[i].negate,
        outs[i] == Ok::<Option<bool>, TaggedFiltererError>(Some(true)),
        forall|j: int| 0 <= j < i ==> (#[trigger] outs[j]) is Ok,
    ensures
        reduce(fs, outs, acc) == Ok::<bool, TaggedFiltererError>(true),
    decreases i,
{
    if i > 0 {
        assert(outs[0] is Ok);
        let fs2 = fs.drop_first();
        let outs2 = outs.drop_first();
        assert forall|j: int| 0 <= j < i - 1 implies (#[trigger] outs2[j]) is Ok by {
            assert(outs2[j] == outs[j + 1]);
        }
        match outs[0] {
            Ok(Some(a)) => {
                if !(fs[0].negate && a) {
                    lemma_negate_short_circuit(fs2, outs2, if fs[0].negate { acc } else { acc && a }, i - 1);
                }
            },
            _ => {
                lemma_negate_short_circuit(fs2, outs2, acc, i - 1);
            },
        }
    }
}

/// With no filters, every event that the ignore files let through passes.
pub proof fn lemma_no_filters_pass(t: TaggedFilterer, tags: Seq<Tag>, p: Priority, vs: Seq<PathVerdicts>)
    requires
        t.no_filters(),
    ensures
        t.verdict(tags, p, true, vs) == Ok::<bool, TaggedFiltererError>(true),
{
    assert(t.filters_on(Matcher::Priority).len() == 0);
}

/// Adding filters to a filterer that has none and then clearing them leaves a
/// filterer whose verdict on every event is the one before the filters were
/// added, whatever the compiled matchers' verdicts on either side.
pub proof fn lemma_clear_restores(
    before: TaggedFilterer,
    added_filters: Seq<FilterView>,
    added: TaggedFilterer,
    cleared: TaggedFilterer,
    tags: Seq<Tag>,
    p: Priority,
    ignore_pass: bool,
    vs_before: Seq<PathVerdicts>,
    vs_cleared: Seq<PathVerdicts>,
)
    requires
        before.no_filters(),
        TaggedFilterer::filters_added(before, added_filters, added),
        TaggedFilterer::filters_cleared(added, cleared),
    ensures
        cleared.verdict(tags, p, ignore_pass, vs_cleared) == before.verdict(tags, p, ignore_pass, vs_before),
{
    assert(before.filters_on(Matcher::Priority).len() == 0);
    assert(cleared.filters_on(Matcher::Priority).len() == 0);
}

/// Every filter a well-formed filterer stores with a glob operator holds a
/// pattern that parses as a glob, and canonicalising any stored filter gives
/// it back unchanged.
pub proof fn lemma_stored_filters_canonical(t: TaggedFilterer, m: Matcher, i: int)
    requires
        t.wf(),
        0 <= i < t.filters_on(m).len(),
    ensures
        canonical(t.filters_on(m)[i]) == Ok::<FilterView, TaggedFiltererError>(t.filters_on(m)[i]),
        is_glob_op(t.filters_on(m)[i].op) ==> (t.filters_on(m)[i].pat matches PatternView::Glob(p) && glob_parses(p)),
{
    let f = t.filters_on(m)[i];
    if is_glob_op(f.op) {
        lemma_glob_ops_hold_globs(f);
    }
}

/// Canonicalising a batch of filters twice gives the first result: adding a
/// batch already canonicalised stores the same filters as adding it raw.
pub proof fn lemma_canonical_all_idempotent(fs: Seq<FilterView>)
    requires
        canonical_all(fs) is Ok,
    ensures
        canonical_all(canonical_all(fs)->Ok_0) == canonical_all(fs),
    decreases fs.len(),
{
    if fs.len() > 0 {
        let g = canonical(fs[0])->Ok_0;
        lemma_canonical_idempotent(fs[0]);
        lemma_canonical_all_idempotent(fs.drop_first());
        let rest = canonical_all(fs.drop_first())->Ok_0;
        let cs = seq![g] + rest;
        assert(cs[0] == g);
        assert(cs.drop_first() =~= rest);
    }
}

/// Once a negated filter of a dimension applies to a tag, and none before it
/// failed with an error, the tag passes that dimension, whatever the filters
/// after it and the compiled matchers' verdicts.
pub proof fn lemma_negated_filter_passes_dimension(t: TaggedFilterer, tag: Tag, m: Matcher, v: PathVerdicts, i: int)
    requires
        0 <= i < t.filters_on(m).len(),
        t.filters_on(m)[i].negate,
        t.tag_outcome(t.filters_on(m)[i], tag) == Ok::<Option<bool>, TaggedFiltererError>(Some(true)),
        forall|j: int| 0 <= j < i ==> (#[trigger] t.tag_outcome(t.filters_on(m)[j], tag)) is Ok,
    ensures
        t.matcher_pass(tag, m, v) == Ok::<bool, TaggedFiltererError>(true),
{
    let fs = t.filters_on(m);
    let outs = fs.map_values(|f: FilterView| t.tag_outcome(f, tag));
    let init = match tag {
        Tag::Path { path, .. } => if m == Matcher::Path { glob_initial(v, path@) } else { true },
        _ => true,
    };
    assert forall|j: int| 0 <= j < i implies (#[trigger] outs[j]) is Ok by {
        assert(outs[j] == t.tag_outcome(fs[j], tag));
    }
    lemma_negate_short_circuit(fs, outs, init, i);
}

/// Once a negated priority filter applies, and none before it failed with an
/// error, the priority gate passes, whatever the filters after it.
pub proof fn lemma_negated_filter_passes_priority(t: TaggedFilterer, p: Priority, i: int)
    requires
        0 <= i < t.filters_on(Matcher::Priority).len(),
        t.filters_on(Matcher::Priority)[i].negate,
        filter_matches(t.filters_on(Matcher::Priority)[i], priority_text(p)) == Ok::<bool, TaggedFiltererError>(true),
        forall|j: int| 0 <= j < i ==> (#[trigger] filter_matches(t.filters_on(Matcher::Priority)[j], priority_text(p))) is Ok,
    ensures
        t.priority_pass(p) == Ok::<bool, TaggedFiltererError>(true),
{
    let fs = t.filters_on(Matcher::Priority);
    let outs = fs.map_values(|f: FilterView| some_of(filter_matches(f, priority_text(p))));
    assert forall|j: int| 0 <= j < i implies (#[trigger] outs[j]) is Ok by {
        assert(filter_matches(fs[j], priority_text(p)) is Ok);
    }
    lemma_negate_short_circuit(fs, outs, true, i);
}

} // verus!
