use tagged_filterer::error::TaggedFiltererError;
use tagged_filterer::filter::{Filter, Matcher, Op, Pattern};
use tagged_filterer::filterer::{PathVerdicts, TaggedFilterer};
use tagged_filterer::globs::GlobMatch;
use tagged_filterer::tags::{Event, FileType, Priority, ProcessEnd, Signal, Tag};
use std::path::PathBuf;

fn filter(on: Matcher, op: Op, pat: Pattern) -> Filter {
    Filter { in_path: None, on, op, pat, negate: false }
}

fn exact(s: &str) -> Pattern {
    Pattern::Exact(s.to_string())
}

fn path_event(path: &str, ft: Option<FileType>) -> Event {
    Event { tags: vec![Tag::Path { path: path.to_string(), file_type: ft }] }
}

fn proj() -> TaggedFilterer {
    TaggedFilterer::new("/proj".to_string(), "/proj".to_string())
}

fn with(filters: Vec<Filter>) -> TaggedFilterer {
    let mut f = proj();
    f.add_filters(&filters).unwrap();
    f
}

#[test]
fn path_include_by_glob() {
    let f = with(vec![filter(Matcher::Path, Op::Glob, Pattern::Glob("*.rs".to_string()))]);
    let ev = path_event("/proj/src/main.rs", Some(FileType::File));
    assert_eq!(f.check_event(&ev, Priority::Normal), Ok(true));
    let other = path_event("/proj/src/notes.txt", Some(FileType::File));
    assert_eq!(f.check_event(&other, Priority::Normal), Ok(false));
}

#[test]
fn path_exclude_by_not_glob() {
    let f = with(vec![filter(Matcher::Path, Op::NotGlob, Pattern::Glob("target/**".to_string()))]);
    let ev = path_event("/proj/target/foo.o", Some(FileType::File));
    assert_eq!(f.check_event(&ev, Priority::Normal), Ok(false));
    let src = path_event("/proj/src/lib.rs", Some(FileType::File));
    assert_eq!(f.check_event(&src, Priority::Normal), Ok(true));
}

#[test]
fn negated_priority_filter_rescues() {
    let mut low = filter(Matcher::Priority, Op::Equal, exact("low"));
    low.negate = true;
    let f = with(vec![filter(Matcher::Priority, Op::Equal, exact("high")), low]);
    let ev = Event { tags: vec![] };
    assert_eq!(f.check_event(&ev, Priority::Low), Ok(true));
    assert_eq!(f.check_event(&ev, Priority::High), Ok(true));
    assert_eq!(f.check_event(&ev, Priority::Normal), Ok(false));
}

#[test]
fn negate_short_circuits_later_filters() {
    let mut first = filter(Matcher::Source, Op::Equal, exact("keyboard"));
    first.negate = true;
    // After the applied negated filter, a failing filter and a broken regex are not consulted.
    let f = with(vec![
        first,
        filter(Matcher::Source, Op::Equal, exact("filesystem")),
        filter(Matcher::Source, Op::Regex, Pattern::Regex("(".to_string())),
    ]);
    let ev = Event { tags: vec![Tag::Source("keyboard".to_string())] };
    assert_eq!(f.check_event(&ev, Priority::Normal), Ok(true));
    // Without the short circuit the later filters run, and the broken regex is reached.
    let other = Event { tags: vec![Tag::Source("time".to_string())] };
    assert_eq!(f.check_event(&other, Priority::Normal), Err(TaggedFiltererError::RegexParse));
}

#[test]
fn out_of_scope_path_filter_is_skipped() {
    let mut flt = filter(Matcher::Path, Op::Equal, exact("x"));
    flt.in_path = Some("/other".to_string());
    let f = with(vec![flt]);
    assert_eq!(f.check_event(&path_event("/proj/x", None), Priority::Normal), Ok(true));
    assert_eq!(f.check_event(&path_event("/other/y", None), Priority::Normal), Ok(false));
    assert_eq!(f.check_event(&path_event("/other/x", None), Priority::Normal), Ok(true));
}

#[test]
fn path_resolves_below_workdir() {
    let mut f = TaggedFilterer::new("/proj".to_string(), "/proj/sub".to_string());
    f.add_filters(&vec![filter(Matcher::Path, Op::Equal, exact("a/b.txt"))]).unwrap();
    assert_eq!(f.check_event(&path_event("/proj/sub/a/b.txt", None), Priority::Normal), Ok(true));
    assert_eq!(f.check_event(&path_event("/proj/a/b.txt", None), Priority::Normal), Ok(true));
    assert_eq!(f.check_event(&path_event("/proj/sub/b.txt", None), Priority::Normal), Ok(false));
    // Component-wise: /projx is not below /proj, so only the leading slash goes.
    assert_eq!(f.check_event(&path_event("/projx/a/b.txt", None), Priority::Normal), Ok(false));
}

#[test]
fn signal_matches_in_three_forms() {
    let ev = Event { tags: vec![Tag::Signal(Signal::Interrupt)] };
    for (pat, expected) in [("SIGINT", true), ("2", true), ("INT", true), ("HUP", false)] {
        let f = with(vec![filter(Matcher::Signal, Op::Equal, exact(pat))]);
        assert_eq!(f.check_event(&ev, Priority::Normal), Ok(expected), "{pat}");
    }
    let custom = Event { tags: vec![Tag::Signal(Signal::Custom(15))] };
    let f = with(vec![filter(Matcher::Signal, Op::Equal, exact("TERM"))]);
    assert_eq!(f.check_event(&custom, Priority::Normal), Ok(true));
    let unknown = Event { tags: vec![Tag::Signal(Signal::Custom(33))] };
    let g = with(vec![filter(Matcher::Signal, Op::Equal, exact("33"))]);
    assert_eq!(g.check_event(&unknown, Priority::Normal), Ok(true));
}

#[test]
fn process_completion_forms() {
    let cases = [
        (None, "_"),
        (Some(ProcessEnd::Success), "success"),
        (Some(ProcessEnd::ExitError(-3)), "error(-3)"),
        (Some(ProcessEnd::ExitError(120)), "error(120)"),
        (Some(ProcessEnd::ExitSignal(Signal::Hangup)), "signal(SIGHUP)"),
        (Some(ProcessEnd::ExitSignal(Signal::Hangup)), "signal(1)"),
        (Some(ProcessEnd::ExitStop(19)), "stop(19)"),
        (Some(ProcessEnd::Exception(255)), "exception(FF)"),
        (Some(ProcessEnd::Exception(-1)), "exception(FFFFFFFF)"),
        (Some(ProcessEnd::Continued), "continued"),
    ];
    for (end, text) in cases {
        let ev = Event { tags: vec![Tag::ProcessCompletion(end)] };
        let f = with(vec![filter(Matcher::ProcessCompletion, Op::Equal, exact(text))]);
        assert_eq!(f.check_event(&ev, Priority::Normal), Ok(true), "{text}");
        let g = with(vec![filter(Matcher::ProcessCompletion, Op::Equal, exact("nothing"))]);
        assert_eq!(g.check_event(&ev, Priority::Normal), Ok(false), "{text}");
    }
}

#[test]
fn process_id_and_file_type_and_tag_name() {
    let ev = Event { tags: vec![Tag::Process(4021)] };
    let f = with(vec![filter(Matcher::Process, Op::Equal, exact("4021"))]);
    assert_eq!(f.check_event(&ev, Priority::Normal), Ok(true));
    let g = with(vec![filter(Matcher::Process, Op::NotEqual, exact("4021"))]);
    assert_eq!(g.check_event(&ev, Priority::Normal), Ok(false));

    let dir = path_event("/proj/src", Some(FileType::Dir));
    let h = with(vec![filter(Matcher::FileType, Op::Equal, exact("dir"))]);
    assert_eq!(h.check_event(&dir, Priority::Normal), Ok(true));
    let file = path_event("/proj/src/a", Some(FileType::File));
    assert_eq!(h.check_event(&file, Priority::Normal), Ok(false));

    let k = with(vec![filter(Matcher::Tag, Op::NotEqual, exact("signal"))]);
    assert_eq!(k.check_event(&dir, Priority::Normal), Ok(true));
    let sig = Event { tags: vec![Tag::Signal(Signal::Quit)] };
    assert_eq!(k.check_event(&sig, Priority::Normal), Ok(false));
}

#[test]
fn regex_set_and_auto_operators() {
    let ev = Event { tags: vec![Tag::FileEventKind("Modify(Data(Content))".to_string())] };
    let f = with(vec![filter(Matcher::FileEventKind, Op::Regex, Pattern::Regex("^Modify".to_string()))]);
    assert_eq!(f.check_event(&ev, Priority::Normal), Ok(true));
    let g = with(vec![filter(Matcher::FileEventKind, Op::NotRegex, Pattern::Regex("^Modify".to_string()))]);
    assert_eq!(g.check_event(&ev, Priority::Normal), Ok(false));

    let set = Pattern::OneOf(vec!["high".to_string(), "normal".to_string()]);
    let h = with(vec![filter(Matcher::Priority, Op::InSet, set)]);
    let empty = Event { tags: vec![] };
    assert_eq!(h.check_event(&empty, Priority::Normal), Ok(true));
    assert_eq!(h.check_event(&empty, Priority::Low), Ok(false));

    let a = filter(Matcher::Source, Op::Auto, Pattern::Glob("file*".to_string()));
    assert_eq!(a.matches("filesystem"), Ok(true));
    assert_eq!(a.matches("keyboard"), Ok(false));
    let b = filter(Matcher::Source, Op::Auto, exact("time"));
    assert_eq!(b.matches("time"), Ok(true));
    assert_eq!(b.matches("times"), Ok(false));
}

#[test]
fn error_variants() {
    let bad_regex = filter(Matcher::Source, Op::Regex, Pattern::Regex("(".to_string()));
    assert_eq!(bad_regex.matches("x"), Err(TaggedFiltererError::RegexParse));
    let mismatch = filter(Matcher::Source, Op::Regex, Pattern::OneOf(vec!["a".to_string()]));
    assert_eq!(mismatch.matches("a"), Err(TaggedFiltererError::PatternMismatch));
    let bad_glob = filter(Matcher::Path, Op::Glob, exact("a[b"));
    assert!(matches!(bad_glob.canonicalised(), Err(TaggedFiltererError::GlobParse)));
    let not_glob_set = filter(Matcher::Path, Op::NotGlob, Pattern::OneOf(vec![]));
    assert!(matches!(not_glob_set.canonicalised(), Err(TaggedFiltererError::PatternMismatch)));

    // A filter without a canonical form leaves the filterer as it was.
    let mut f = proj();
    let r = f.add_filters(&vec![filter(Matcher::Source, Op::Equal, exact("x")), filter(Matcher::Path, Op::Glob, exact("a[b"))]);
    assert_eq!(r, Err(TaggedFiltererError::GlobParse));
    assert!(f.filters_for(Matcher::Source).is_empty());

    let g = with(vec![filter(Matcher::Source, Op::Regex, Pattern::Regex("(".to_string()))]);
    let ev = Event { tags: vec![Tag::Source("x".to_string())] };
    assert_eq!(g.check_event(&ev, Priority::Normal), Err(TaggedFiltererError::RegexParse));
}

#[test]
fn urgent_events_always_pass() {
    let f = with(vec![
        filter(Matcher::Priority, Op::Equal, exact("low")),
        filter(Matcher::Path, Op::Glob, Pattern::Glob("*.none".to_string())),
    ]);
    let ev = path_event("/proj/a.rs", None);
    assert_eq!(f.check_event(&ev, Priority::Urgent), Ok(true));
    assert_eq!(f.check_event(&ev, Priority::Normal), Ok(false));
}

#[test]
fn empty_filterer_passes_everything() {
    let f = proj();
    let ev = Event {
        tags: vec![
            Tag::Path { path: "/elsewhere/x".to_string(), file_type: None },
            Tag::Signal(Signal::User1),
            Tag::ProcessCompletion(None),
            Tag::Unknown,
        ],
    };
    for p in [Priority::Low, Priority::Normal, Priority::High, Priority::Urgent] {
        assert_eq!(f.check_event(&ev, p), Ok(true));
    }
}

#[test]
fn clearing_restores_verdicts() {
    let ev = path_event("/proj/src/main.rs", Some(FileType::File));
    let mut f = proj();
    let before = f.check_event(&ev, Priority::Normal);
    f.add_filters(&vec![
        filter(Matcher::Path, Op::NotGlob, Pattern::Glob("src/**".to_string())),
        filter(Matcher::Priority, Op::Equal, exact("high")),
    ])
    .unwrap();
    assert_eq!(f.check_event(&ev, Priority::Normal), Ok(false));
    assert_eq!(f.clear_filters(), Ok(()));
    assert_eq!(f.check_event(&ev, Priority::Normal), before);
    assert!(f.filters_for(Matcher::Path).is_empty());
}

#[test]
fn canonicalisation_is_idempotent() {
    let mut flt = filter(Matcher::Path, Op::Glob, exact("src/*.rs"));
    flt.in_path = Some("/proj/sub//".to_string());
    let once = flt.canonicalised().unwrap();
    let twice = once.clone().canonicalised().unwrap();
    assert_eq!(format!("{once:?}"), format!("{twice:?}"));
    assert_eq!(once.in_path.as_deref(), Some("/proj/sub"));
    let plain = filter(Matcher::Source, Op::Equal, exact("x")).canonicalised().unwrap();
    assert_eq!(format!("{plain:?}"), format!("{:?}", plain.clone().canonicalised().unwrap()));
}

#[test]
fn glob_operators_canonicalise_to_globs() {
    for op in [Op::Glob, Op::NotGlob] {
        let c = filter(Matcher::Path, op, exact("*.rs")).canonicalised().unwrap();
        assert!(matches!(c.pat, Pattern::Glob(ref g) if g == "*.rs"));
    }
    let kept = filter(Matcher::Path, Op::Equal, exact("*.rs")).canonicalised().unwrap();
    assert!(matches!(kept.pat, Pattern::Exact(_)));
}

#[test]
fn filters_round_trip_through_introspection() {
    let fs = vec![
        filter(Matcher::Source, Op::Equal, exact("a")),
        filter(Matcher::Process, Op::Equal, exact("1")),
        filter(Matcher::Source, Op::NotEqual, exact("b")),
    ];
    let f = with(fs);
    let src: Vec<String> = f.filters_for(Matcher::Source).iter().map(|x| format!("{:?}", x.pat)).collect();
    assert_eq!(src, vec![format!("{:?}", exact("a")), format!("{:?}", exact("b"))]);
    assert_eq!(f.filters_for(Matcher::Process).len(), 1);
    assert!(f.filters_for(Matcher::Signal).is_empty());
}

#[test]
fn negated_glob_whitelists() {
    let mut keep = filter(Matcher::Path, Op::NotGlob, Pattern::Glob("target/keep.o".to_string()));
    keep.negate = true;
    let f = with(vec![filter(Matcher::Path, Op::NotGlob, Pattern::Glob("target/**".to_string())), keep]);
    assert_eq!(f.check_event(&path_event("/proj/target/keep.o", None), Priority::Normal), Ok(true));
    assert_eq!(f.check_event(&path_event("/proj/target/drop.o", None), Priority::Normal), Ok(false));
}

#[test]
fn check_with_given_verdicts() {
    let f = with(vec![filter(Matcher::Path, Op::Glob, Pattern::Glob("*.rs".to_string()))]);
    let ev = path_event("/proj/a.rs", None);
    let v = |glob, not_glob| vec![PathVerdicts { glob, not_glob }];
    assert_eq!(f.check(&ev, Priority::Normal, true, &v(Some(GlobMatch::Unmatched), None)), Ok(false));
    assert_eq!(f.check(&ev, Priority::Normal, true, &v(Some(GlobMatch::Ignore(None)), None)), Ok(true));
    assert_eq!(f.check(&ev, Priority::Normal, false, &v(Some(GlobMatch::Ignore(None)), None)), Ok(false));
    let scoped = Some(GlobMatch::Ignore(Some("/proj".to_string())));
    let unscoped = Some(GlobMatch::Ignore(Some("/other".to_string())));
    assert_eq!(f.check(&ev, Priority::Normal, true, &v(None, scoped)), Ok(false));
    assert_eq!(f.check(&ev, Priority::Normal, true, &v(None, unscoped)), Ok(true));
    // The two matchers' results are and-ed: a whitelist does not undo a failed glob match.
    assert_eq!(
        f.check(&ev, Priority::Normal, true, &v(Some(GlobMatch::Unmatched), Some(GlobMatch::Whitelist))),
        Ok(false)
    );
    assert_eq!(
        f.check(&ev, Priority::Normal, true, &v(Some(GlobMatch::Ignore(None)), Some(GlobMatch::Whitelist))),
        Ok(true)
    );
}

#[test]
fn ignore_files_exclude_paths() {
    let mut f = proj();
    let mut ig = f.ignore_filter().clone();
    ig.add_globs(&["*.log", "build/"], Some(&PathBuf::from("/proj"))).unwrap();
    f.swap_ignore_filter(ig);
    let log = path_event("/proj/a.log", Some(FileType::File));
    assert_eq!(f.check_event(&log, Priority::Normal), Ok(false));
    let src = path_event("/proj/src/a.rs", Some(FileType::File));
    assert_eq!(f.check_event(&src, Priority::Normal), Ok(true));
    let mixed = Event { tags: vec![src.tags[0].clone(), log.tags[0].clone()] };
    assert_eq!(f.check_event(&mixed, Priority::Normal), Ok(false));
    assert_eq!(f.check_event(&log, Priority::Urgent), Ok(true));
}

#[test]
fn doubled_separator_paths_are_matched_safely() {
    let f = with(vec![filter(Matcher::Path, Op::Glob, Pattern::Glob("*.rs".to_string()))]);
    let ev = path_event("/proj//src/main.rs", Some(FileType::File));
    assert!(f.check_event(&ev, Priority::Normal).is_ok());
}

#[test]
fn ignore_verdict_fails_on_any_ignored_path() {
    assert!(TaggedFilterer::ignore_verdict(&vec![]));
    assert!(TaggedFilterer::ignore_verdict(&vec![GlobMatch::Unmatched, GlobMatch::Whitelist]));
    assert!(!TaggedFilterer::ignore_verdict(&vec![GlobMatch::Whitelist, GlobMatch::Ignore(None)]));
}

#[test]
fn glob_on_another_dimension_leaves_path_matching_alone() {
    // A glob filter on the Tag dimension triggers a rebuild, but no path filter
    // has a glob operator, so no path glob matcher is compiled.
    let f = with(vec![
        filter(Matcher::Path, Op::Equal, exact("src/a.rs")),
        filter(Matcher::Tag, Op::Glob, Pattern::Glob("p*".to_string())),
    ]);
    assert_eq!(f.check_event(&path_event("/proj/src/a.rs", None), Priority::Normal), Ok(true));
    assert_eq!(f.check_event(&path_event("/proj/src/b.rs", None), Priority::Normal), Ok(false));
}

#[test]
fn glob_and_not_glob_are_and_ed() {
    let mut keep = filter(Matcher::Path, Op::NotGlob, Pattern::Glob("docs/keep.md".to_string()));
    keep.negate = true;
    let f = with(vec![
        filter(Matcher::Path, Op::Glob, Pattern::Glob("*.rs".to_string())),
        filter(Matcher::Path, Op::NotGlob, Pattern::Glob("docs/**".to_string())),
        keep,
    ]);
    // The not-glob matcher whitelists the file, but the glob matcher finds no match.
    assert_eq!(f.check_event(&path_event("/proj/docs/keep.md", None), Priority::Normal), Ok(false));
    assert_eq!(f.check_event(&path_event("/proj/src/main.rs", None), Priority::Normal), Ok(true));
}

#[test]
fn tag_names_are_lower_case() {
    let f = with(vec![filter(Matcher::Tag, Op::Equal, exact("path"))]);
    assert_eq!(f.check_event(&path_event("/proj/a", None), Priority::Normal), Ok(true));
    let g = with(vec![filter(Matcher::Tag, Op::Equal, exact("process_completion"))]);
    let ev = Event { tags: vec![Tag::ProcessCompletion(None)] };
    assert_eq!(g.check_event(&ev, Priority::Normal), Ok(true));
    assert_eq!(g.check_event(&path_event("/proj/a", None), Priority::Normal), Ok(false));
}

#[test]
fn non_ascii_and_padded_globs_compile() {
    let f = with(vec![filter(Matcher::Path, Op::Glob, Pattern::Glob("*.日本".to_string()))]);
    assert_eq!(f.check_event(&path_event("/proj/a.日本", None), Priority::Normal), Ok(true));
    assert_eq!(f.check_event(&path_event("/proj/a.rs", None), Priority::Normal), Ok(false));
    // The gitignore builder drops the trailing space of a pattern line.
    let g = with(vec![filter(Matcher::Path, Op::NotGlob, Pattern::Glob("*.tmp ".to_string()))]);
    assert_eq!(g.check_event(&path_event("/proj/a.tmp", None), Priority::Normal), Ok(false));
    assert_eq!(g.check_event(&path_event("/proj/a.rs", None), Priority::Normal), Ok(true));
}
