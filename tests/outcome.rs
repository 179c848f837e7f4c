use tagged_filterer::error::RuntimeError;
use tagged_filterer::outcome::{reset_sequence, ClearKind, Outcome, OutcomeWorker, Step};
use tagged_filterer::tags::Signal;
use tagged_filterer::text::{render_decimal, render_hex32};

#[test]
fn superseded_worker_does_nothing() {
    let counter = OutcomeWorker::newgen();
    assert_eq!(counter, 0);
    let w1 = OutcomeWorker::spawn(counter);
    let w2 = OutcomeWorker::spawn(w1.gen());
    let current = w2.gen();
    assert_eq!((w1.gen(), w2.gen()), (1, 2));
    assert!(!w1.check_gen(current));
    assert!(w2.check_gen(current));
    assert!(matches!(w1.apply(current, true, Outcome::Sleep(10_000)), Step::Superseded));
    assert!(matches!(w1.apply(current, true, Outcome::Stop), Step::Superseded));
    assert!(matches!(w2.apply(current, false, Outcome::Start), Step::Start(None)));
}

#[test]
fn generation_wraps() {
    assert_eq!(OutcomeWorker::spawn(usize::MAX).gen(), 0);
}

#[test]
fn steps_follow_process_state() {
    let w = OutcomeWorker::spawn(4);
    let g = w.gen();
    assert!(matches!(w.apply(g, true, Outcome::Stop), Step::StopProcess));
    assert!(matches!(w.apply(g, false, Outcome::Stop), Step::NoProcess));
    assert!(matches!(w.apply(g, false, Outcome::Wait), Step::NoProcess));
    assert!(matches!(w.apply(g, true, Outcome::Wait), Step::Wait));
    assert!(matches!(w.apply(g, false, Outcome::Signal(Signal::Terminate)), Step::NoProcess));
    assert!(matches!(w.apply(g, true, Outcome::Signal(Signal::Terminate)), Step::Signal(Signal::Terminate)));
    assert!(matches!(w.apply(g, true, Outcome::DoNothing), Step::Nothing));
    assert!(matches!(w.apply(g, false, Outcome::Exit), Step::Exit));
    assert!(matches!(w.apply(g, true, Outcome::Destroy), Step::Destroy { running: true }));
    assert!(matches!(w.apply(g, false, Outcome::StartHook(3)), Step::Start(Some(3))));
    assert!(matches!(w.apply(g, false, Outcome::Sleep(250)), Step::Sleep(250)));
    assert!(matches!(w.apply(g, false, Outcome::Clear), Step::Clear));
    assert!(matches!(w.apply(g, false, Outcome::Reset), Step::Reset));
    assert!(matches!(w.apply(g, false, Outcome::Hook(7)), Step::Hook(7)));
    let branch = || Outcome::IfRunning(Box::new(Outcome::Stop), Box::new(Outcome::Start));
    assert!(matches!(w.apply(g, true, branch()), Step::Apply(Outcome::Stop)));
    assert!(matches!(w.apply(g, false, branch()), Step::Apply(Outcome::Start)));
    let both = Outcome::Both(Box::new(Outcome::Stop), Box::new(Outcome::Start));
    assert!(matches!(w.apply(g, false, both.duplicate()), Step::Both(Outcome::Stop, Outcome::Start)));
    let race = Outcome::Race(Box::new(Outcome::Wait), Box::new(Outcome::Sleep(5)));
    assert!(matches!(w.apply(g, true, race), Step::Race(Outcome::Wait, Outcome::Sleep(5))));
}

#[test]
fn reset_order() {
    assert_eq!(
        reset_sequence(),
        vec![ClearKind::WindowsCooked, ClearKind::WindowsVt, ClearKind::VtLeaveAlt, ClearKind::VtWellDone, ClearKind::Default]
    );
}

#[test]
fn exit_is_recognised() {
    assert!(RuntimeError::Exit.is_exit());
    assert!(!RuntimeError::NoCommands.is_exit());
}

#[test]
fn number_rendering() {
    let s = |v: Vec<char>| v.into_iter().collect::<String>();
    assert_eq!(s(render_decimal(0)), "0");
    assert_eq!(s(render_decimal(-45)), "-45");
    assert_eq!(s(render_decimal(i64::MIN)), "-9223372036854775808");
    assert_eq!(s(render_hex32(0x1A2B)), "1A2B");
    assert_eq!(s(render_hex32(i32::MIN)), "80000000");
}
