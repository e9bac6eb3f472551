//! The accumulation session: the state machine between a begin signal and
//! the end signal that commits a style.
//!
//! A session is idle or accumulating. While it accumulates it owns one style,
//! which edits change in place. The end signal serializes that style, hands
//! the fragment back for delivery and leaves the session idle, with nothing
//! kept for the next one.

use vstd::prelude::*;
use vstd::string::*;

use crate::shortcuts::apply_style;
use crate::style::{
    asks_for_stroke, clipboard_element_text, lemma_empty_style_declares_nothing,
    lemma_last_operation_wins, lemma_stroke_resolves_to_normal, lemma_untouched_category_is_kept,
    stroke_width_property_text, xml_header, Category, EditOp, StrokeThickness, Style,
};
use crate::text::contains;

verus! {

/// What an input adapter tells the accumulator.
#[derive(Clone, Copy, Debug, PartialEq, Eq)]
pub enum Signal {
    Begin,
    Edit(EditOp),
    End,
}

/// One step of the session: the state after `signal`, and the fragment that
/// the step commits, if it commits one. A state is the style being
/// accumulated, or `None` when the session is idle.
pub open spec fn step(state: Option<Style>, signal: Signal) -> (Option<Style>, Option<Seq<char>>) {
    match signal {
        Signal::Begin => match state {
            None => (Some(Style::empty()), None),
            Some(style) => (Some(style), None),
        },
        Signal::Edit(op) => match state {
            None => (None, None),
            Some(style) => (Some(style.applied(op)), None),
        },
        Signal::End => match state {
            None => (None, None),
            Some(style) => (None, Some(style.fragment_text())),
        },
    }
}

/// A run of steps: the state after all of `signals`, and the fragments
/// committed on the way, in order.
pub open spec fn run(state: Option<Style>, signals: Seq<Signal>) -> (Option<Style>, Seq<Seq<char>>)
    decreases signals.len(),
{
    if signals.len() == 0 {
        (state, Seq::empty())
    } else {
        let before = run(state, signals.drop_last());
        let last = step(before.0, signals.last());
        match last.1 {
            Some(fragment) => (last.0, before.1.push(fragment)),
            None => (last.0, before.1),
        }
    }
}

/// The signals of one whole session that applies `ops`.
pub open spec fn session(ops: Seq<EditOp>) -> Seq<Signal> {
    seq![Signal::Begin] + Seq::new(ops.len(), |i: int| Signal::Edit(ops[i])) + seq![Signal::End]
}

/// The text of a fragment that may be there.
pub open spec fn text_of(fragment: Option<String>) -> Option<Seq<char>> {
    match fragment {
        Some(text) => Some(text@),
        None => None,
    }
}

/// Owns the style in progress and decides when accumulation starts, is
/// amended and is committed.
#[derive(Clone, Copy, Debug, PartialEq, Eq)]
pub struct StyleAccumulator {
    model: Option<Style>,
}

impl View for StyleAccumulator {
    type V = Option<Style>;

    closed spec fn view(&self) -> Option<Style> {
        self.model
    }
}

impl StyleAccumulator {
    /// An idle accumulator.
    pub fn new() -> (accumulator: Self)
        ensures
            accumulator@ is None,
    {
        StyleAccumulator { model: None }
    }

    /// Whether a session is open.
    pub fn is_accumulating(&self) -> (accumulating: bool)
        ensures
            accumulating == (self@ is Some),
    {
        self.model.is_some()
    }

    /// The style in progress, if a session is open.
    pub fn style(&self) -> (style: Option<Style>)
        ensures
            style == self@,
    {
        self.model
    }

    /// Opens a session with a fresh, empty style. An open session is left as
    /// it is; the result says whether a session was opened.
    pub fn begin(&mut self) -> (started: bool)
        ensures
            started == (old(self)@ is None),
            started ==> final(self)@ == Some(Style::empty()),
            !started ==> final(self)@ == old(self)@,
            final(self)@ == step(old(self)@, Signal::Begin).0,
    {
        if self.model.is_some() {
            false
        } else {
            self.model = Some(Style::new());
            true
        }
    }

    /// Applies one edit to the style in progress. Without an open session
    /// nothing happens; the result says whether the edit was applied.
    pub fn apply(&mut self, op: EditOp) -> (applied: bool)
        ensures
            applied == (old(self)@ is Some),
            old(self)@ matches Some(style) ==> final(self)@ == Some(style.applied(op)),
            old(self)@ is None ==> final(self)@ is None,
            final(self)@ == step(old(self)@, Signal::Edit(op)).0,
    {
        match self.model {
            Some(mut style) => {
                style.apply(op);
                self.model = Some(style);
                true
            },
            None => false,
        }
    }

    /// Commits the session: the fragment of the accumulated style is handed
    /// back and the session is idle again. Without an open session nothing
    /// happens and there is no fragment.
    pub fn end(&mut self) -> (fragment: Option<String>)
        ensures
            final(self)@ is None,
            old(self)@ is None ==> fragment is None,
            old(self)@ matches Some(style) ==> text_of(fragment) == Some(style.fragment_text()),
            text_of(fragment) == step(old(self)@, Signal::End).1,
    {
        match self.model {
            Some(mut style) => {
                let text = apply_style(&mut style);
                self.model = None;
                Some(text)
            },
            None => None,
        }
    }

    /// Takes one signal, whichever it is.
    pub fn signal(&mut self, signal: Signal) -> (fragment: Option<String>)
        ensures
            final(self)@ == step(old(self)@, signal).0,
            text_of(fragment) == step(old(self)@, signal).1,
    {
        match signal {
            Signal::Begin => {
                self.begin();
                None
            },
            Signal::Edit(op) => {
                self.apply(op);
                None
            },
            Signal::End => self.end(),
        }
    }
}

/// Running two runs of signals one after the other is running them as one.
pub proof fn lemma_run_splits(state: Option<Style>, first: Seq<Signal>, second: Seq<Signal>)
    ensures
        run(state, first + second) == (
            run(run(state, first).0, second).0,
            run(state, first).1 + run(run(state, first).0, second).1,
        ),
    decreases second.len(),
{
    let middle = run(state, first);
    if second.len() == 0 {
        assert(first + second =~= first);
        assert(middle.1 + run(middle.0, second).1 =~= middle.1);
    } else {
        lemma_run_splits(state, first, second.drop_last());
        assert((first + second).drop_last() =~= first + second.drop_last());
        assert((first + second).last() == second.last());
        let before = run(middle.0, second.drop_last());
        let last = step(before.0, second.last());
        match last.1 {
            Some(fragment) => {
                assert((middle.1 + before.1).push(fragment) =~= middle.1 + before.1.push(
                    fragment,
                ));
            },
            None => {},
        }
    }
}

/// Edits change the open session's style and commit nothing.
pub proof fn lemma_edits_accumulate(style: Style, ops: Seq<EditOp>)
    ensures
        run(Some(style), Seq::new(ops.len(), |i: int| Signal::Edit(ops[i]))) == (
            Some(style.applied_all(ops)),
            Seq::<Seq<char>>::empty(),
        ),
    decreases ops.len(),
{
    let signals = Seq::new(ops.len(), |i: int| Signal::Edit(ops[i]));
    if ops.len() > 0 {
        let shorter = ops.drop_last();
        lemma_edits_accumulate(style, shorter);
        assert(signals.drop_last() =~= Seq::new(shorter.len(), |i: int| Signal::Edit(shorter[i])));
        assert(signals.last() == Signal::Edit(ops.last()));
    }
}

/// A whole session, from idle to idle, commits exactly one fragment: that of
/// the empty style with the session's edits applied in order. With
/// `lemma_last_operation_wins` this says that for each category of
/// attributes the fragment shows what the last edit of that category wrote.
pub proof fn lemma_session_commits_its_edits(ops: Seq<EditOp>)
    ensures
        run(None, session(ops)) == (
            None::<Style>,
            seq![Style::empty().applied_all(ops).fragment_text()],
        ),
{
    let edits = Seq::new(ops.len(), |i: int| Signal::Edit(ops[i]));
    let begin = seq![Signal::Begin];
    let end = seq![Signal::End];
    lemma_run_one(None, Signal::Begin);
    lemma_edits_accumulate(Style::empty(), ops);
    lemma_run_splits(None, begin, edits);
    lemma_run_one(Some(Style::empty().applied_all(ops)), Signal::End);
    lemma_run_splits(None, begin + edits, end);
    assert(Seq::<Seq<char>>::empty() + Seq::<Seq<char>>::empty() =~= Seq::<Seq<char>>::empty());
    assert(Seq::<Seq<char>>::empty() + seq![Style::empty().applied_all(ops).fragment_text()]
        =~= seq![Style::empty().applied_all(ops).fragment_text()]);
}

/// Whether no operation behind the one at `i` writes the same category.
pub open spec fn is_last_of_its_category(ops: Seq<EditOp>, i: int) -> bool {
    forall|j: int| i < j < ops.len() ==> ops[j].category_spec() != ops[i].category_spec()
}

/// Whether no operation writes `category`.
pub open spec fn leaves_alone(ops: Seq<EditOp>, category: Category) -> bool {
    forall|j: int| 0 <= j < ops.len() ==> ops[j].category_spec() != category
}

/// Later edits override earlier ones of the same category, and only those.
/// The fragment that a session commits is that of a style in which every
/// category holds what the last edit of that category wrote, and in which
/// the categories that no edit named are unset.
pub proof fn lemma_session_shows_last_edits(ops: Seq<EditOp>)
    ensures
        run(None, session(ops)) == (
            None::<Style>,
            seq![Style::empty().applied_all(ops).fragment_text()],
        ),
        forall|i: int|
            0 <= i < ops.len() && #[trigger] is_last_of_its_category(ops, i) ==> Style::empty().applied_all(
                ops,
            ).only(ops[i].category_spec()) == Style::empty().applied(ops[i]).only(
                ops[i].category_spec(),
            ),
        forall|category: Category| #[trigger]
            leaves_alone(ops, category) ==> Style::empty().applied_all(ops).only(category)
                == Style::empty(),
{
    lemma_session_commits_its_edits(ops);
    assert forall|i: int|
        0 <= i < ops.len() && #[trigger] is_last_of_its_category(
            ops,
            i,
        ) implies Style::empty().applied_all(ops).only(ops[i].category_spec())
        == Style::empty().applied(ops[i]).only(ops[i].category_spec()) by {
        lemma_last_operation_wins(Style::empty(), ops, i);
    }
    assert forall|category: Category| #[trigger] leaves_alone(ops, category) implies Style::empty().applied_all(
        ops,
    ).only(category) == Style::empty() by {
        lemma_untouched_category_is_kept(Style::empty(), ops, category);
    }
}

/// A session that applies a dash or a marker edit and never sets the stroke
/// width commits a fragment with the stroke-width property of a normal
/// stroke.
pub proof fn lemma_session_resolves_stroke(ops: Seq<EditOp>)
    requires
        exists|i: int| 0 <= i < ops.len() && asks_for_stroke(#[trigger] ops[i]),
        forall|i: int| 0 <= i < ops.len() ==> !(#[trigger] ops[i] is StrokeWidth),
    ensures
        run(None, session(ops)).1.len() == 1,
        contains(
            run(None, session(ops)).1[0],
            stroke_width_property_text(Some(StrokeThickness::Normal)),
        ),
{
    lemma_session_commits_its_edits(ops);
    lemma_stroke_resolves_to_normal(ops);
}

/// A run of one signal is one step.
pub proof fn lemma_run_one(state: Option<Style>, signal: Signal)
    ensures
        run(state, seq![signal]) == (
            step(state, signal).0,
            match step(state, signal).1 {
                Some(fragment) => seq![fragment],
                None => Seq::<Seq<char>>::empty(),
            },
        ),
{
    let signals = seq![signal];
    assert(signals.drop_last() =~= Seq::<Signal>::empty());
    assert(signals.last() == signal);
    assert(run(state, signals.drop_last()) == (state, Seq::<Seq<char>>::empty()));
    match step(state, signal).1 {
        Some(fragment) => {
            assert(Seq::<Seq<char>>::empty().push(fragment) =~= seq![fragment]);
        },
        None => {},
    }
}

/// An end signal in an idle session changes nothing and commits nothing,
/// however often it comes.
pub proof fn lemma_end_when_idle_is_ignored(count: nat)
    ensures
        run(None, Seq::new(count, |i: int| Signal::End)) == (
            None::<Style>,
            Seq::<Seq<char>>::empty(),
        ),
    decreases count,
{
    let signals = Seq::new(count, |i: int| Signal::End);
    if count > 0 {
        lemma_end_when_idle_is_ignored((count - 1) as nat);
        assert(signals.drop_last() =~= Seq::new((count - 1) as nat, |i: int| Signal::End));
    }
}

/// Sessions do not leak into each other: of two sessions in a row, each
/// commits the fragment that it would commit alone, so nothing that the
/// first one set shows in the second.
pub proof fn lemma_sessions_do_not_leak(first: Seq<EditOp>, second: Seq<EditOp>)
    ensures
        run(None, session(first) + session(second)) == (
            None::<Style>,
            seq![
                Style::empty().applied_all(first).fragment_text(),
                Style::empty().applied_all(second).fragment_text(),
            ],
        ),
        run(None, session(first) + session(second)).1[1] == run(None, session(second)).1[0],
{
    lemma_session_commits_its_edits(first);
    lemma_session_commits_its_edits(second);
    lemma_run_splits(None, session(first), session(second));
    assert(seq![Style::empty().applied_all(first).fragment_text()] + seq![
        Style::empty().applied_all(second).fragment_text(),
    ] =~= seq![
        Style::empty().applied_all(first).fragment_text(),
        Style::empty().applied_all(second).fragment_text(),
    ]);
}

/// A session without edits that follows any other session commits the bare
/// document with an empty declaration: no property of the session before
/// shows in it.
pub proof fn lemma_empty_session_commits_empty_style(first: Seq<EditOp>)
    ensures
        run(None, session(first) + session(Seq::empty())).1.len() == 2,
        run(None, session(first) + session(Seq::empty())).1[1] == xml_header()
            + clipboard_element_text(Seq::empty()),
{
    lemma_sessions_do_not_leak(first, Seq::empty());
    lemma_empty_style_declares_nothing();
}

} // verus!
