//! What to do with the supervised process: the outcome expression, and the
//! generation-guarded decisions of the worker that applies it.
use vstd::prelude::*;
use crate::tags::Signal;

verus! {

/// An action expression on the supervised process.
#[derive(Debug)]
pub enum Outcome {
    DoNothing,
    /// Shut down gracefully.
    Exit,
    /// Kill the process, wait for it, and let it go.
    Stop,
    /// Start a new process in place of any current one.
    Start,
    /// Start a new process, running the pre-spawn hook with this index first.
    StartHook(usize),
    /// Wait for the process to end.
    Wait,
    Signal(Signal),
    /// Sleep for this many milliseconds.
    Sleep(u64),
    Clear,
    /// Reset the terminal (see [`reset_sequence`]).
    Reset,
    /// Stop the process if there is one, then end the worker's lifecycle.
    Destroy,
    /// Run the hook with this index.
    Hook(usize),
    /// The first outcome if a process runs, else the second.
    IfRunning(Box<Outcome>, Box<Outcome>),
    /// The first outcome, then the second; an error of the first is reported
    /// without stopping the second.
    Both(Box<Outcome>, Box<Outcome>),
    /// Both outcomes at once; the first to finish decides.
    Race(Box<Outcome>, Box<Outcome>),
}

/// A way of clearing the screen.
#[derive(Clone, Copy, Debug, PartialEq, Eq, Structural)]
pub enum ClearKind {
    WindowsCooked,
    WindowsVt,
    VtLeaveAlt,
    VtWellDone,
    /// The platform's default.
    Default,
}

/// The next step of a worker on one outcome node.
#[derive(Debug)]
pub enum Step {
    /// A newer worker exists: return successfully, doing nothing.
    Superseded,
    /// Nothing to do.
    Nothing,
    /// Return the graceful-exit error.
    Exit,
    /// Kill the process, wait for it, and drop it.
    StopProcess,
    /// If `running`, kill, wait and drop the process; then end the lifecycle.
    Destroy { running: bool },
    /// The outcome means nothing without a process: log and do nothing.
    NoProcess,
    /// Spawn a supervisor, with the given pre-spawn hook if any, replacing any current one.
    Start(Option<usize>),
    /// Send the signal to the process.
    Signal(Signal),
    /// Wait for the process to end.
    Wait,
    /// Sleep for this many milliseconds.
    Sleep(u64),
    /// Clear the screen the platform's default way.
    Clear,
    /// Clear the screen in each way of [`reset_sequence`], in order.
    Reset,
    /// Run the hook with this index.
    Hook(usize),
    /// Apply this outcome.
    Apply(Outcome),
    /// Apply the first outcome, reporting its error, then the second.
    Both(Outcome, Outcome),
    /// Apply both outcomes concurrently; the first to finish decides.
    Race(Outcome, Outcome),
}

impl Outcome {
    /// A copy of this outcome.
    pub fn duplicate(&self) -> (r: Outcome)
        ensures
            r == *self,
        decreases self,
    {
        match self {
            Outcome::DoNothing => Outcome::DoNothing,
            Outcome::Exit => Outcome::Exit,
            Outcome::Stop => Outcome::Stop,
            Outcome::Start => Outcome::Start,
            Outcome::StartHook(h) => Outcome::StartHook(*h),
            Outcome::Wait => Outcome::Wait,
            Outcome::Signal(s) => Outcome::Signal(*s),
            Outcome::Sleep(ms) => Outcome::Sleep(*ms),
            Outcome::Clear => Outcome::Clear,
            Outcome::Reset => Outcome::Reset,
            Outcome::Destroy => Outcome::Destroy,
            Outcome::Hook(h) => Outcome::Hook(*h),
            Outcome::IfRunning(a, b) => Outcome::IfRunning(Box::new(a.duplicate()), Box::new(b.duplicate())),
            Outcome::Both(a, b) => Outcome::Both(Box::new(a.duplicate()), Box::new(b.duplicate())),
            Outcome::Race(a, b) => Outcome::Race(Box::new(a.duplicate()), Box::new(b.duplicate())),
        }
    }
}

/// Whether the step does anything beyond returning.
pub open spec fn has_effect(s: Step) -> bool {
    !(s is Superseded || s is Nothing || s is NoProcess)
}

/// The ordered ways of clearing the screen that reset a terminal robustly.
pub open spec fn reset_kinds() -> Seq<ClearKind> {
    seq![ClearKind::WindowsCooked, ClearKind::WindowsVt, ClearKind::VtLeaveAlt, ClearKind::VtWellDone, ClearKind::Default]
}

/// The worker's step on `outcome`, given its own generation `own`, the shared
/// counter's value `current`, and whether a process is held.
pub open spec fn decision(own: usize, current: usize, running: bool, outcome: Outcome) -> Step {
    if current != own {
        Step::Superseded
    } else {
        match outcome {
            Outcome::DoNothing => Step::Nothing,
            Outcome::Exit => Step::Exit,
            Outcome::Destroy => Step::Destroy { running },
            Outcome::Stop => if running { Step::StopProcess } else { Step::NoProcess },
            Outcome::Wait => if running { Step::Wait } else { Step::NoProcess },
            Outcome::Signal(s) => if running { Step::Signal(s) } else { Step::NoProcess },
            Outcome::Start => Step::Start(None),
            Outcome::StartHook(h) => Step::Start(Some(h)),
            Outcome::Sleep(ms) => Step::Sleep(ms),
            Outcome::Clear => Step::Clear,
            Outcome::Reset => Step::Reset,
            Outcome::Hook(h) => Step::Hook(h),
            Outcome::IfRunning(t, e) => if running { Step::Apply(*t) } else { Step::Apply(*e) },
            Outcome::Both(a, b) => Step::Both(*a, *b),
            Outcome::Race(a, b) => Step::Race(*a, *b),
        }
    }
}

/// The ordered ways of clearing the screen that reset a terminal.
pub fn reset_sequence() -> (r: Vec<ClearKind>)
    ensures
        r@ == reset_kinds(),
{
    let r = vec![ClearKind::WindowsCooked, ClearKind::WindowsVt, ClearKind::VtLeaveAlt, ClearKind::VtWellDone, ClearKind::Default];
    assert(r@ =~= reset_kinds());
    r
}

/// Applies outcomes on behalf of one generation.
#[derive(Clone, Copy, Debug)]
pub struct OutcomeWorker {
    gen: usize,
}

/// The counter value a new worker takes: one past the value it replaced, wrapping.
pub open spec fn next_generation(previous: usize) -> usize {
    if previous == usize::MAX { 0 } else { (previous + 1) as usize }
}

impl OutcomeWorker {
    pub closed spec fn generation(self) -> usize {
        self.gen
    }

    /// The initial value of a shared generation counter.
    pub fn newgen() -> (r: usize)
        ensures
            r == 0,
    {
        0
    }

    /// A worker for the generation after `previous`, the counter's value that the
    /// caller replaced with one more.
    pub fn spawn(previous: usize) -> (r: OutcomeWorker)
        ensures
            r.generation() == next_generation(previous),
    {
        OutcomeWorker { gen: previous.wrapping_add(1) }
    }

    /// This worker's generation.
    pub fn gen(&self) -> (r: usize)
        ensures
            r == self.generation(),
    {
        self.gen
    }

    /// Whether the worker is still current, given the shared counter's value.
    pub fn check_gen(&self, current: usize) -> (r: bool)
        ensures
            r == (current == self.generation()),
    {
        current == self.gen
    }

    /// The next step on `outcome`, given the shared counter's value read after
    /// learning whether a process is held.
    pub fn apply(&self, current: usize, running: bool, outcome: Outcome) -> (r: Step)
        ensures
            r == decision(self.generation(), current, running, outcome),
    {
        if !self.check_gen(current) {
            return Step::Superseded;
        }
        match outcome {
            Outcome::DoNothing => Step::Nothing,
            Outcome::Exit => Step::Exit,
            Outcome::Destroy => Step::Destroy { running },
            Outcome::Stop => if running { Step::StopProcess } else { Step::NoProcess },
            Outcome::Wait => if running { Step::Wait } else { Step::NoProcess },
            Outcome::Signal(s) => if running { Step::Signal(s) } else { Step::NoProcess },
            Outcome::Start => Step::Start(None),
            Outcome::StartHook(h) => Step::Start(Some(h)),
            Outcome::Sleep(ms) => Step::Sleep(ms),
            Outcome::Clear => Step::Clear,
            Outcome::Reset => Step::Reset,
            Outcome::Hook(h) => Step::Hook(h),
            Outcome::IfRunning(t, e) => if running { Step::Apply(*t) } else { Step::Apply(*e) },
            Outcome::Both(a, b) => Step::Both(*a, *b),
            Outcome::Race(a, b) => Step::Race(*a, *b),
        }
    }
}

/// Once the shared counter has moved past a worker's generation, whatever the
/// outcome and whether or not a process runs, the worker's next step is to
/// return successfully without any effect.
pub proof fn lemma_superseded_worker_is_inert(w: OutcomeWorker, current: usize, running: bool, outcome: Outcome)
    requires
        current != w.generation(),
    ensures
        decision(w.generation(), current, running, outcome) is Superseded,
        !has_effect(decision(w.generation(), current, running, outcome)),
{
}

} // verus!
