//! Watching figures: one ordered stream of events, and what each event
//! calls for.
//!
//! Two producers report on the watched directory: a scan names the files
//! that are there when watching starts, a notifier names the files that
//! change afterwards. A [`WatchEventMultiplexer`] lines their events up in
//! the order of arrival for a single reader. For every event [`react`] says
//! what is to be done: nothing, an announcement, or a conversion of the
//! figure into its typeset form.

use std::collections::VecDeque;
use vstd::prelude::*;
use vstd::string::*;

verus! {

/// The directory that is watched, with everything below it.
pub const WATCH_ROOT: &'static str = "figures";

/// The seconds between two looks of the notifier at the watched directory.
pub const POLL_INTERVAL_SECS: u64 = 1;

/// How a live change was reported.
#[derive(Clone, Copy, Debug, PartialEq, Eq, Structural)]
pub enum Outcome {
    /// The file was created or written.
    Modified,
    /// The notifier failed on the file.
    Failed,
}

/// An event of the watched directory.
#[derive(Clone, Debug, PartialEq, Eq)]
pub enum WatchEvent {
    /// A file found by the scan at the start.
    Scanned(String),
    /// A file touched by a live change.
    Changed(String, Outcome),
}

/// A watch event with its path as text.
pub enum WatchEventView {
    Scanned(Seq<char>),
    Changed(Seq<char>, Outcome),
}

impl View for WatchEvent {
    type V = WatchEventView;

    open spec fn view(&self) -> WatchEventView {
        match self {
            WatchEvent::Scanned(path) => WatchEventView::Scanned(path@),
            WatchEvent::Changed(path, outcome) => WatchEventView::Changed(path@, *outcome),
        }
    }
}

impl WatchEventView {
    /// The path that the event is about.
    pub open spec fn path(self) -> Seq<char> {
        match self {
            WatchEventView::Scanned(path) => path,
            WatchEventView::Changed(path, _) => path,
        }
    }
}

/// Whether `path` names a figure: its last component ends in `.svg` and has
/// something in front of that.
pub open spec fn is_figure_path(path: Seq<char>) -> bool {
    &&& path.len() >= 5
    &&& path.subrange(path.len() - 4, path.len() as int) == ".svg"@
    &&& path[path.len() - 5] != '/'
}

/// Where the last component of `path` starts: behind its last `/`, or at
/// the front.
pub open spec fn file_name_start(path: Seq<char>) -> int
    decreases path.len(),
{
    if path.len() == 0 {
        0
    } else if path.last() == '/' {
        path.len() as int
    } else {
        file_name_start(path.drop_last())
    }
}

/// The name of a figure without directories and without its extension.
pub open spec fn figure_stem(path: Seq<char>) -> Seq<char>
    recommends
        is_figure_path(path),
{
    path.subrange(file_name_start(path), path.len() - 4)
}

/// The path of the typeset form of a figure: the same path with `.pdf` in
/// place of `.svg`.
pub open spec fn converted_path(path: Seq<char>) -> Seq<char>
    recommends
        is_figure_path(path),
{
    path.subrange(0, path.len() - 4) + ".pdf"@
}

/// The start of the last component lies within the path, directly behind
/// a `/` unless it is the front, and no `/` follows it.
pub proof fn lemma_file_name_start(path: Seq<char>)
    ensures
        0 <= file_name_start(path) <= path.len(),
        file_name_start(path) > 0 ==> path[file_name_start(path) - 1] == '/',
        forall|i: int| file_name_start(path) <= i < path.len() ==> path[i] != '/',
    decreases path.len(),
{
    if path.len() > 0 && path.last() != '/' {
        let shorter = path.drop_last();
        lemma_file_name_start(shorter);
        assert forall|i: int| file_name_start(path) <= i < path.len() implies path[i] != '/' by {
            if i < shorter.len() {
                assert(shorter[i] == path[i]);
            }
        }
    }
}

/// A position directly behind a `/`, or the front, that no `/` follows is
/// where the last component starts.
proof fn lemma_file_name_start_found(path: Seq<char>, start: int)
    requires
        0 <= start <= path.len(),
        start > 0 ==> path[start - 1] == '/',
        forall|i: int| start <= i < path.len() ==> path[i] != '/',
    ensures
        file_name_start(path) == start,
    decreases path.len(),
{
    if path.len() > 0 && path.last() != '/' {
        lemma_file_name_start_found(path.drop_last(), start);
    }
}

/// The stem of a figure is not empty and ends before the extension.
pub proof fn lemma_figure_has_stem(path: Seq<char>)
    requires
        is_figure_path(path),
    ensures
        0 <= file_name_start(path) <= path.len() - 5,
        figure_stem(path).len() >= 1,
{
    reveal_strlit(".svg");
    lemma_file_name_start(path);
    let n = path.len() as int;
    let tail = path.subrange(n - 4, n);
    assert(tail[0] == '.' && tail[1] == 's' && tail[2] == 'v' && tail[3] == 'g');
    assert(path[n - 4] == tail[0]);
    assert(path[n - 3] == tail[1]);
    assert(path[n - 2] == tail[2]);
    assert(path[n - 1] == tail[3]);
    let start = file_name_start(path);
    if start > n - 5 {
        assert(path[start - 1] == '/');
    }
}

/// Whether `path` names a figure.
pub fn is_figure(path: &str) -> (yes: bool)
    ensures
        yes == is_figure_path(path@),
{
    let len = path.unicode_len();
    if len < 5 {
        return false;
    }
    proof {
        reveal_strlit(".svg");
    }
    let yes = path.get_char(len - 4) == '.' && path.get_char(len - 3) == 's' && path.get_char(
        len - 2,
    ) == 'v' && path.get_char(len - 1) == 'g' && path.get_char(len - 5) != '/';
    proof {
        let tail = path@.subrange(len - 4, len as int);
        assert(tail[0] == path@[len - 4]);
        assert(tail[1] == path@[len - 3]);
        assert(tail[2] == path@[len - 2]);
        assert(tail[3] == path@[len - 1]);
        if yes {
            assert(tail =~= ".svg"@);
        }
    }
    yes
}

/// The number of characters in front of the last component of `path`.
pub fn file_name_offset(path: &str) -> (start: usize)
    ensures
        start == file_name_start(path@),
{
    let len = path.unicode_len();
    let mut start: usize = 0;
    let mut i: usize = 0;
    for c in chars: path.chars()
        invariant
            len == path@.len(),
            chars.seq() == path@,
            i == chars.index(),
            0 <= start <= i <= len,
            start > 0 ==> path@[start - 1] == '/',
            forall|k: int| start <= k < i ==> path@[k] != '/',
    {
        i += 1;
        if c == '/' {
            start = i;
        }
    }
    proof {
        lemma_file_name_start_found(path@, start as int);
    }
    start
}

/// The stem of a figure's path; nothing for a path that names no figure.
pub fn file_stem(path: &str) -> (stem: Option<String>)
    ensures
        stem is Some <==> is_figure_path(path@),
        stem matches Some(s) ==> s@ == figure_stem(path@),
{
    if !is_figure(path) {
        return None;
    }
    proof {
        lemma_figure_has_stem(path@);
    }
    let len = path.unicode_len();
    let start = file_name_offset(path);
    Some(String::from_str(path.substring_char(start, len - 4)))
}

/// The path that a figure is converted to; nothing for a path that names
/// no figure.
pub fn output_path(path: &str) -> (output: Option<String>)
    ensures
        output is Some <==> is_figure_path(path@),
        output matches Some(s) ==> s@ == converted_path(path@),
{
    if !is_figure(path) {
        return None;
    }
    let len = path.unicode_len();
    Some(String::from_str(path.substring_char(0, len - 4)).concat(".pdf"))
}

/// What an event calls for.
#[derive(Clone, Debug, PartialEq, Eq)]
pub enum Action {
    /// Nothing: the event is of no concern.
    Ignore,
    /// The figure is there and is being watched.
    Announce { stem: String },
    /// The figure changed: convert `source` into `output`.
    Convert { source: String, output: String, stem: String },
}

/// An action with its texts.
pub enum ActionView {
    Ignore,
    Announce { stem: Seq<char> },
    Convert { source: Seq<char>, output: Seq<char>, stem: Seq<char> },
}

impl View for Action {
    type V = ActionView;

    open spec fn view(&self) -> ActionView {
        match self {
            Action::Ignore => ActionView::Ignore,
            Action::Announce { stem } => ActionView::Announce { stem: stem@ },
            Action::Convert { source, output, stem } => ActionView::Convert {
                source: source@,
                output: output@,
                stem: stem@,
            },
        }
    }
}

/// The action for an event. Only figures count. A scanned figure is
/// announced, a modified one is converted into its sibling with the same
/// stem, and a failed notification is passed over.
pub open spec fn reaction(event: WatchEventView) -> ActionView {
    if !is_figure_path(event.path()) {
        ActionView::Ignore
    } else {
        match event {
            WatchEventView::Scanned(path) => ActionView::Announce { stem: figure_stem(path) },
            WatchEventView::Changed(path, Outcome::Modified) => ActionView::Convert {
                source: path,
                output: converted_path(path),
                stem: figure_stem(path),
            },
            WatchEventView::Changed(_, Outcome::Failed) => ActionView::Ignore,
        }
    }
}

/// Decides what an event calls for.
pub fn react(event: &WatchEvent) -> (action: Action)
    ensures
        action@ == reaction(event@),
{
    match event {
        WatchEvent::Scanned(path) => match file_stem(path.as_str()) {
            Some(stem) => Action::Announce { stem },
            None => Action::Ignore,
        },
        WatchEvent::Changed(path, Outcome::Modified) => {
            let stem = file_stem(path.as_str());
            let output = output_path(path.as_str());
            match (stem, output) {
                (Some(stem), Some(output)) => Action::Convert {
                    source: path.clone(),
                    output,
                    stem,
                },
                _ => Action::Ignore,
            }
        },
        WatchEvent::Changed(_, Outcome::Failed) => Action::Ignore,
    }
}

/// The converter's program and arguments for one conversion.
#[derive(Clone, Debug, PartialEq, Eq)]
pub struct Invocation {
    pub program: String,
    pub arguments: Vec<String>,
}

/// The arguments that export the page area of `source` at 300 dpi as a PDF
/// whose text is left to LaTeX, written to `output`.
pub open spec fn conversion_arguments(source: Seq<char>, output: Seq<char>) -> Seq<Seq<char>> {
    seq![
        source,
        "--export-area-page"@,
        "--export-dpi=300"@,
        "--export-type=pdf"@,
        "--export-latex"@,
        "--export-filename="@ + output,
    ]
}

/// The texts of a list of arguments.
pub open spec fn argument_texts(arguments: Seq<String>) -> Seq<Seq<char>> {
    Seq::new(arguments.len(), |i: int| arguments[i]@)
}

/// The converter's invocation that turns `source` into `output`.
pub fn conversion(source: &str, output: &str) -> (invocation: Invocation)
    ensures
        invocation.program@ == "inkscape"@,
        argument_texts(invocation.arguments@) == conversion_arguments(source@, output@),
{
    let mut arguments: Vec<String> = Vec::new();
    arguments.push(String::from_str(source));
    arguments.push(String::from_str("--export-area-page"));
    arguments.push(String::from_str("--export-dpi=300"));
    arguments.push(String::from_str("--export-type=pdf"));
    arguments.push(String::from_str("--export-latex"));
    arguments.push(String::from_str("--export-filename=").concat(output));
    assert(argument_texts(arguments@) =~= conversion_arguments(source@, output@));
    Invocation { program: String::from_str("inkscape"), arguments }
}

/// The line that tells of a figure found by the scan.
pub fn scan_report(stem: &str) -> (line: String)
    ensures
        line@ == "found figure: "@ + stem@,
{
    String::from_str("found figure: ").concat(stem)
}

/// The line that tells how a conversion went.
pub fn conversion_report(stem: &str, succeeded: bool) -> (line: String)
    ensures
        line@ == if succeeded {
            "saved as pdf: "@ + stem@
        } else {
            "error saving "@ + stem@ + " as pdf:"@
        },
{
    if succeeded {
        String::from_str("saved as pdf: ").concat(stem)
    } else {
        String::from_str("error saving ").concat(stem).concat(" as pdf:")
    }
}

/// The merged stream of the two producers: events wait here, in the order
/// in which they arrived, for the single reader.
pub struct WatchEventMultiplexer {
    waiting: VecDeque<WatchEvent>,
}

impl View for WatchEventMultiplexer {
    type V = Seq<WatchEventView>;

    closed spec fn view(&self) -> Seq<WatchEventView> {
        Seq::new(self.waiting@.len(), |i: int| self.waiting@[i]@)
    }
}

impl WatchEventMultiplexer {
    /// A multiplexer in which nothing waits.
    pub fn new() -> (multiplexer: Self)
        ensures
            multiplexer@ == Seq::<WatchEventView>::empty(),
    {
        let multiplexer = WatchEventMultiplexer { waiting: VecDeque::new() };
        assert(multiplexer@ =~= Seq::<WatchEventView>::empty());
        multiplexer
    }

    /// The number of events that wait.
    pub fn len(&self) -> (len: usize)
        ensures
            len == self@.len(),
    {
        self.waiting.len()
    }

    /// Takes an event from either producer in at the back.
    pub fn push(&mut self, event: WatchEvent)
        ensures
            final(self)@ == old(self)@.push(event@),
    {
        self.waiting.push_back(event);
        assert(self@ =~= old(self)@.push(event@));
    }

    /// Hands the reader the event that has waited longest.
    pub fn pop(&mut self) -> (event: Option<WatchEvent>)
        ensures
            match event {
                Some(e) => {
                    &&& old(self)@.len() > 0
                    &&& e@ == old(self)@[0]
                    &&& final(self)@ == old(self)@.skip(1)
                },
                None => {
                    &&& old(self)@.len() == 0
                    &&& final(self)@ == old(self)@
                },
            },
    {
        let event = self.waiting.pop_front();
        assert(old(self)@.len() > 0 ==> self@ =~= old(self)@.skip(1));
        assert(old(self)@.len() == 0 ==> self@ =~= old(self)@);
        event
    }
}

/// One use of the multiplexer: a producer pushes, or the reader pops.
pub enum Access {
    Push(WatchEventView),
    Pop,
}

/// The multiplexer after a run of accesses: the events that still wait, and
/// the events that the reader has got, in order.
pub open spec fn replay(accesses: Seq<Access>) -> (Seq<WatchEventView>, Seq<WatchEventView>)
    decreases accesses.len(),
{
    if accesses.len() == 0 {
        (Seq::empty(), Seq::empty())
    } else {
        let before = replay(accesses.drop_last());
        match accesses.last() {
            Access::Push(event) => (before.0.push(event), before.1),
            Access::Pop => if before.0.len() > 0 {
                (before.0.skip(1), before.1.push(before.0[0]))
            } else {
                before
            },
        }
    }
}

/// The events that the producers pushed in a run of accesses, in order.
pub open spec fn arrivals(accesses: Seq<Access>) -> Seq<WatchEventView>
    decreases accesses.len(),
{
    if accesses.len() == 0 {
        Seq::empty()
    } else {
        match accesses.last() {
            Access::Push(event) => arrivals(accesses.drop_last()).push(event),
            Access::Pop => arrivals(accesses.drop_last()),
        }
    }
}

/// However the producers and the reader take turns, the reader gets the
/// events in the order of their arrival, none dropped, none made up and
/// none twice: what was read, followed by what waits, is what arrived.
pub proof fn lemma_arrival_order_is_kept(accesses: Seq<Access>)
    ensures
        replay(accesses).1 + replay(accesses).0 == arrivals(accesses),
    decreases accesses.len(),
{
    if accesses.len() == 0 {
        assert(replay(accesses).1 + replay(accesses).0 =~= arrivals(accesses));
    } else {
        lemma_arrival_order_is_kept(accesses.drop_last());
        let before = replay(accesses.drop_last());
        match accesses.last() {
            Access::Push(event) => {
                assert(before.1 + before.0.push(event) =~= (before.1 + before.0).push(event));
            },
            Access::Pop => {
                if before.0.len() > 0 {
                    assert(before.1.push(before.0[0]) + before.0.skip(1) =~= before.1 + before.0);
                }
            },
        }
    }
}

/// Events are never reordered: of two events that were both read, the one
/// that arrived first was read first. So where the scan reported a file
/// before the notifier reported a change to it, the reader sees the scan
/// first.
pub proof fn lemma_read_in_arrival_order(accesses: Seq<Access>, first: int, second: int)
    requires
        0 <= first < second < replay(accesses).1.len(),
    ensures
        second < arrivals(accesses).len(),
        replay(accesses).1[first] == arrivals(accesses)[first],
        replay(accesses).1[second] == arrivals(accesses)[second],
{
    lemma_arrival_order_is_kept(accesses);
    let read = replay(accesses).1;
    let waiting = replay(accesses).0;
    assert((read + waiting)[first] == read[first]);
    assert((read + waiting)[second] == read[second]);
}

/// The events of the scan among `events`, in order.
pub open spec fn scans_in(events: Seq<WatchEventView>) -> Seq<WatchEventView> {
    events.filter(|event: WatchEventView| event is Scanned)
}

/// The events of the notifier among `events`, in order.
pub open spec fn changes_in(events: Seq<WatchEventView>) -> Seq<WatchEventView> {
    events.filter(|event: WatchEventView| event is Changed)
}

/// Within each producer the order is kept, whatever the other producer
/// does: what the reader got of a producer's events, followed by those that
/// wait, is what that producer sent.
pub proof fn lemma_each_producer_keeps_its_order(accesses: Seq<Access>)
    ensures
        scans_in(replay(accesses).1) + scans_in(replay(accesses).0) == scans_in(
            arrivals(accesses),
        ),
        changes_in(replay(accesses).1) + changes_in(replay(accesses).0) == changes_in(
            arrivals(accesses),
        ),
{
    lemma_arrival_order_is_kept(accesses);
    let read = replay(accesses).1;
    let waiting = replay(accesses).0;
    Seq::filter_distributes_over_add(read, waiting, |event: WatchEventView| event is Scanned);
    Seq::filter_distributes_over_add(read, waiting, |event: WatchEventView| event is Changed);
}

} // verus!
