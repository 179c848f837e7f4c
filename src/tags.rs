//! Events, their tags, and the text forms that filters are matched against.
use vstd::prelude::*;
use crate::text::{decimal, hex32, render_decimal, render_hex32};

verus! {

/// The kind of filesystem entry a path tag refers to.
#[derive(Clone, Copy, Debug, PartialEq, Eq, Structural)]
pub enum FileType {
    File,
    Dir,
    Symlink,
    Other,
}

/// How urgently an event should be handled. Urgent events bypass filtering.
#[derive(Clone, Copy, Debug, PartialEq, Eq, Structural)]
pub enum Priority {
    Low,
    Normal,
    High,
    Urgent,
}

/// A process signal, by meaning, or by number for any other.
#[derive(Clone, Copy, Debug, PartialEq, Eq, Structural)]
pub enum Signal {
    Hangup,
    ForceStop,
    Interrupt,
    Quit,
    Terminate,
    User1,
    User2,
    /// A signal known by meaning that has no short name here.
    Other,
    Custom(i32),
}

/// How a process ended.
#[derive(Clone, Copy, Debug, PartialEq, Eq, Structural)]
pub enum ProcessEnd {
    Success,
    ExitError(i64),
    ExitSignal(Signal),
    ExitStop(i32),
    Exception(i32),
    Continued,
}

/// One facet of an event.
///
/// The event kind and the source are carried in their rendered text forms.
#[derive(Clone, Debug)]
pub enum Tag {
    Path { path: String, file_type: Option<FileType> },
    FileEventKind(String),
    Source(String),
    Keyboard(String),
    Process(u32),
    Signal(Signal),
    ProcessCompletion(Option<ProcessEnd>),
    Unknown,
}

/// An event: the tags that describe it.
#[derive(Clone, Debug)]
pub struct Event {
    pub tags: Vec<Tag>,
}

/// Text form of a file type.
pub open spec fn file_type_text(ft: FileType) -> Seq<char> {
    match ft {
        FileType::File => seq!['f', 'i', 'l', 'e'],
        FileType::Dir => seq!['d', 'i', 'r'],
        FileType::Symlink => seq!['s', 'y', 'm', 'l', 'i', 'n', 'k'],
        FileType::Other => seq!['o', 't', 'h', 'e', 'r'],
    }
}

pub fn file_type_chars(ft: FileType) -> (r: Vec<char>)
    ensures
        r@ == file_type_text(ft),
{
    match ft {
        FileType::File => vec!['f', 'i', 'l', 'e'],
        FileType::Dir => vec!['d', 'i', 'r'],
        FileType::Symlink => vec!['s', 'y', 'm', 'l', 'i', 'n', 'k'],
        FileType::Other => vec!['o', 't', 'h', 'e', 'r'],
    }
}

/// Text form of a (non-urgent) priority.
pub open spec fn priority_text(p: Priority) -> Seq<char> {
    match p {
        Priority::Low => seq!['l', 'o', 'w'],
        Priority::Normal => seq!['n', 'o', 'r', 'm', 'a', 'l'],
        Priority::High => seq!['h', 'i', 'g', 'h'],
        Priority::Urgent => seq!['u', 'r', 'g', 'e', 'n', 't'],
    }
}

pub fn priority_chars(p: Priority) -> (r: Vec<char>)
    ensures
        r@ == priority_text(p),
{
    match p {
        Priority::Low => vec!['l', 'o', 'w'],
        Priority::Normal => vec!['n', 'o', 'r', 'm', 'a', 'l'],
        Priority::High => vec!['h', 'i', 'g', 'h'],
        Priority::Urgent => vec!['u', 'r', 'g', 'e', 'n', 't'],
    }
}

/// Name of a tag's variant, in lower case with `_` between words.
pub open spec fn tag_name(t: Tag) -> Seq<char> {
    match t {
        Tag::Path { .. } => seq!['p', 'a', 't', 'h'],
        Tag::FileEventKind(_) => seq!['f', 'i', 'l', 'e', '_', 'e', 'v', 'e', 'n', 't', '_', 'k', 'i', 'n', 'd'],
        Tag::Source(_) => seq!['s', 'o', 'u', 'r', 'c', 'e'],
        Tag::Keyboard(_) => seq!['k', 'e', 'y', 'b', 'o', 'a', 'r', 'd'],
        Tag::Process(_) => seq!['p', 'r', 'o', 'c', 'e', 's', 's'],
        Tag::Signal(_) => seq!['s', 'i', 'g', 'n', 'a', 'l'],
        Tag::ProcessCompletion(_) => seq!['p', 'r', 'o', 'c', 'e', 's', 's', '_', 'c', 'o', 'm', 'p', 'l', 'e', 't', 'i', 'o', 'n'],
        Tag::Unknown => seq!['u', 'n', 'k', 'n', 'o', 'w', 'n'],
    }
}

impl Tag {
    /// Name of this tag's variant, as matched by filters on the `Tag` dimension.
    pub fn discriminant_name(&self) -> (r: Vec<char>)
        ensures
            r@ == tag_name(*self),
    {
        match self {
            Tag::Path { .. } => vec!['p', 'a', 't', 'h'],
            Tag::FileEventKind(_) => vec!['f', 'i', 'l', 'e', '_', 'e', 'v', 'e', 'n', 't', '_', 'k', 'i', 'n', 'd'],
            Tag::Source(_) => vec!['s', 'o', 'u', 'r', 'c', 'e'],
            Tag::Keyboard(_) => vec!['k', 'e', 'y', 'b', 'o', 'a', 'r', 'd'],
            Tag::Process(_) => vec!['p', 'r', 'o', 'c', 'e', 's', 's'],
            Tag::Signal(_) => vec!['s', 'i', 'g', 'n', 'a', 'l'],
            Tag::ProcessCompletion(_) => vec!['p', 'r', 'o', 'c', 'e', 's', 's', '_', 'c', 'o', 'm', 'p', 'l', 'e', 't', 'i', 'o', 'n'],
            Tag::Unknown => vec!['u', 'n', 'k', 'n', 'o', 'w', 'n'],
        }
    }
}

/// Short name and number of a signal: HUP 1, INT 2, QUIT 3, KILL 9, USR1 10,
/// USR2 12, TERM 15; any other number is `UNK` with that number, and any other
/// signal is `UNK` 0.
pub open spec fn signal_form(s: Signal) -> (Seq<char>, i32) {
    match s {
        Signal::Hangup | Signal::Custom(1) => (seq!['H', 'U', 'P'], 1),
        Signal::ForceStop | Signal::Custom(9) => (seq!['K', 'I', 'L', 'L'], 9),
        Signal::Interrupt | Signal::Custom(2) => (seq!['I', 'N', 'T'], 2),
        Signal::Quit | Signal::Custom(3) => (seq!['Q', 'U', 'I', 'T'], 3),
        Signal::Terminate | Signal::Custom(15) => (seq!['T', 'E', 'R', 'M'], 15),
        Signal::User1 | Signal::Custom(10) => (seq!['U', 'S', 'R', '1'], 10),
        Signal::User2 | Signal::Custom(12) => (seq!['U', 'S', 'R', '2'], 12),
        Signal::Custom(n) => (seq!['U', 'N', 'K'], n),
        Signal::Other => (seq!['U', 'N', 'K'], 0),
    }
}

pub fn signal_chars(s: Signal) -> (r: (Vec<char>, i32))
    ensures
        r.0@ == signal_form(s).0,
        r.1 == signal_form(s).1,
{
    match s {
        Signal::Hangup | Signal::Custom(1) => (vec!['H', 'U', 'P'], 1),
        Signal::ForceStop | Signal::Custom(9) => (vec!['K', 'I', 'L', 'L'], 9),
        Signal::Interrupt | Signal::Custom(2) => (vec!['I', 'N', 'T'], 2),
        Signal::Quit | Signal::Custom(3) => (vec!['Q', 'U', 'I', 'T'], 3),
        Signal::Terminate | Signal::Custom(15) => (vec!['T', 'E', 'R', 'M'], 15),
        Signal::User1 | Signal::Custom(10) => (vec!['U', 'S', 'R', '1'], 10),
        Signal::User2 | Signal::Custom(12) => (vec!['U', 'S', 'R', '2'], 12),
        Signal::Custom(n) => (vec!['U', 'N', 'K'], n),
        Signal::Other => (vec!['U', 'N', 'K'], 0),
    }
}

/// The three accepted text forms of a signal: `INT`, `SIGINT`, `2`.
pub open spec fn signal_texts(s: Signal) -> Seq<Seq<char>> {
    let (name, num) = signal_form(s);
    seq![name, seq!['S', 'I', 'G'] + name, decimal(num as int)]
}

/// `open` + `inner` + `)`.
pub open spec fn wrapped(open: Seq<char>, inner: Seq<char>) -> Seq<char> {
    open + inner + seq![')']
}

/// The text forms of a process completion that filters are matched against; a
/// match on any of them counts.
pub open spec fn completion_texts(end: Option<ProcessEnd>) -> Seq<Seq<char>> {
    match end {
        None => seq![seq!['_']],
        Some(ProcessEnd::Success) => seq![seq!['s', 'u', 'c', 'c', 'e', 's', 's']],
        Some(ProcessEnd::ExitError(n)) => seq![wrapped(seq!['e', 'r', 'r', 'o', 'r', '('], decimal(n as int))],
        Some(ProcessEnd::ExitSignal(s)) => {
            let t = signal_texts(s);
            let o = seq!['s', 'i', 'g', 'n', 'a', 'l', '('];
            seq![wrapped(o, t[0]), wrapped(o, t[1]), wrapped(o, t[2])]
        },
        Some(ProcessEnd::ExitStop(n)) => seq![wrapped(seq!['s', 't', 'o', 'p', '('], decimal(n as int))],
        Some(ProcessEnd::Exception(n)) => seq![
            wrapped(seq!['e', 'x', 'c', 'e', 'p', 't', 'i', 'o', 'n', '('], hex32(n as int))
        ],
        Some(ProcessEnd::Continued) => seq![seq!['c', 'o', 'n', 't', 'i', 'n', 'u', 'e', 'd']],
    }
}

fn concat(a: Vec<char>, b: Vec<char>) -> (r: Vec<char>)
    ensures
        r@ == a@ + b@,
{
    let mut a = a;
    let mut b = b;
    a.append(&mut b);
    a
}

fn wrap(open: Vec<char>, inner: Vec<char>) -> (r: Vec<char>)
    ensures
        r@ == wrapped(open@, inner@),
{
    concat(concat(open, inner), vec![')'])
}

/// The three text forms of a signal, in the order short name, long name, number.
pub fn signal_subjects(s: Signal) -> (r: Vec<Vec<char>>)
    ensures
        r@.len() == 3,
        forall|i: int| 0 <= i < 3 ==> r@[i]@ == #[trigger] signal_texts(s)[i],
{
    let (name, num) = signal_chars(s);
    let long = concat(vec!['S', 'I', 'G'], name.clone());
    let n = render_decimal(num as i64);
    let r = vec![name, long, n];
    assert(signal_texts(s)[0] == signal_form(s).0);
    r
}

/// The text forms of a process completion (see [`completion_texts`]).
pub fn completion_subjects(end: Option<ProcessEnd>) -> (r: Vec<Vec<char>>)
    ensures
        r@.len() == completion_texts(end).len(),
        forall|i: int| 0 <= i < r@.len() ==> r@[i]@ == #[trigger] completion_texts(end)[i],
{
    match end {
        None => vec![vec!['_']],
        Some(ProcessEnd::Success) => vec![vec!['s', 'u', 'c', 'c', 'e', 's', 's']],
        Some(ProcessEnd::ExitError(n)) => vec![wrap(vec!['e', 'r', 'r', 'o', 'r', '('], render_decimal(n))],
        Some(ProcessEnd::ExitSignal(s)) => {
            let t = signal_subjects(s);
            let o = vec!['s', 'i', 'g', 'n', 'a', 'l', '('];
            let a = wrap(o.clone(), t[0].clone());
            let b = wrap(o.clone(), t[1].clone());
            let c = wrap(o, t[2].clone());
            vec![a, b, c]
        },
        Some(ProcessEnd::ExitStop(n)) => vec![wrap(vec!['s', 't', 'o', 'p', '('], render_decimal(n as i64))],
        Some(ProcessEnd::Exception(n)) => vec![
            wrap(vec!['e', 'x', 'c', 'e', 'p', 't', 'i', 'o', 'n', '('], render_hex32(n))
        ],
        Some(ProcessEnd::Continued) => vec![vec!['c', 'o', 'n', 't', 'i', 'n', 'u', 'e', 'd']],
    }
}

} // verus!
