//! From key events to style edits.
//!
//! A [`HotkeyListener`] is fed the key events of the host, one by one and in
//! order. It turns each into signals for the accumulation session and says
//! what is to be done with the event and with any fragment that the signals
//! committed. It comes in two variants. With a held modifier the session
//! lasts from the modifier's press to its release, and the edit keys pressed
//! in between are kept from the application in front. With chords each
//! activated chord is a session of its own.

use vstd::prelude::*;
use vstd::string::*;

use crate::session::{
    lemma_run_one, lemma_run_splits, lemma_session_commits_its_edits, run, session, Signal,
    StyleAccumulator,
};
use crate::style::{EditOp, FillColor, Opacity, StrokeDash, StrokeThickness, Style};

verus! {

/// The keys that the listener tells apart.
#[derive(Clone, Copy, Debug, PartialEq, Eq, Structural)]
pub enum Key {
    Alt,
    Num1,
    Num2,
    Num3,
    KeyQ,
    KeyW,
    KeyE,
    KeyA,
    KeyS,
    KeyD,
    KeyZ,
    KeyX,
    Other,
}

/// One event of the host's key stream. With chords, `Press` is the
/// activation of the chord on that key.
#[derive(Clone, Copy, Debug, PartialEq, Eq, Structural)]
pub enum KeyEvent {
    Press(Key),
    Release(Key),
    Other,
}

/// How the host delivers shortcuts.
#[derive(Clone, Copy, Debug, PartialEq, Eq, Structural)]
pub enum Variant {
    /// Raw presses and releases; the modifier is held during a session.
    HeldModifier,
    /// One event per completed chord of modifier and key.
    Chord,
}

/// The edit that a key stands for.
pub open spec fn edit_of_key_spec(key: Key) -> Option<EditOp> {
    match key {
        Key::Num1 => Some(EditOp::StrokeWidth(StrokeThickness::Normal)),
        Key::Num2 => Some(EditOp::StrokeWidth(StrokeThickness::Thick)),
        Key::Num3 => Some(EditOp::StrokeWidth(StrokeThickness::VeryThick)),
        Key::KeyQ => Some(EditOp::StrokeDash(StrokeDash::Solid)),
        Key::KeyW => Some(EditOp::StrokeDash(StrokeDash::Dashed)),
        Key::KeyE => Some(EditOp::StrokeDash(StrokeDash::Dotted)),
        Key::KeyA => Some(EditOp::Fill(FillColor::White, Opacity::of_hundredths(100))),
        Key::KeyS => Some(EditOp::Fill(FillColor::Black, Opacity::of_hundredths(12))),
        Key::KeyD => Some(EditOp::Fill(FillColor::Black, Opacity::of_hundredths(100))),
        Key::KeyZ => Some(EditOp::MarkerStart),
        Key::KeyX => Some(EditOp::MarkerEnd),
        Key::Alt => None,
        Key::Other => None,
    }
}

/// The edit that a key stands for, if it stands for one.
#[verifier::when_used_as_spec(edit_of_key_spec)]
pub fn edit_of_key(key: Key) -> (op: Option<EditOp>)
    ensures
        op == edit_of_key_spec(key),
{
    match key {
        Key::Num1 => Some(EditOp::StrokeWidth(StrokeThickness::Normal)),
        Key::Num2 => Some(EditOp::StrokeWidth(StrokeThickness::Thick)),
        Key::Num3 => Some(EditOp::StrokeWidth(StrokeThickness::VeryThick)),
        Key::KeyQ => Some(EditOp::StrokeDash(StrokeDash::Solid)),
        Key::KeyW => Some(EditOp::StrokeDash(StrokeDash::Dashed)),
        Key::KeyE => Some(EditOp::StrokeDash(StrokeDash::Dotted)),
        Key::KeyA => Some(EditOp::Fill(FillColor::White, Opacity::opaque())),
        Key::KeyS => Some(EditOp::Fill(FillColor::Black, Opacity::tint())),
        Key::KeyD => Some(EditOp::Fill(FillColor::Black, Opacity::opaque())),
        Key::KeyZ => Some(EditOp::MarkerStart),
        Key::KeyX => Some(EditOp::MarkerEnd),
        Key::Alt => None,
        Key::Other => None,
    }
}

/// Applies the edit of `key` to `style`; a key without an edit changes
/// nothing.
pub fn update_style(style: &mut Style, key: Key)
    ensures
        *final(style) == match edit_of_key_spec(key) {
            Some(op) => old(style).applied(op),
            None => *old(style),
        },
{
    match edit_of_key(key) {
        Some(op) => style.apply(op),
        None => {},
    }
}

/// Turns a finished style into the fragment that is delivered to the
/// editor. The style's stroke width is left resolved.
pub fn apply_style(style: &mut Style) -> (fragment: String)
    ensures
        *final(style) == old(style).resolved(),
        fragment@ == old(style).fragment_text(),
{
    style.to_string()
}

/// The signals that an event stands for.
pub open spec fn signals_of(variant: Variant, event: KeyEvent) -> Seq<Signal> {
    match variant {
        Variant::HeldModifier => match event {
            KeyEvent::Press(Key::Alt) => seq![Signal::Begin],
            KeyEvent::Release(Key::Alt) => seq![Signal::End],
            KeyEvent::Press(key) => match edit_of_key_spec(key) {
                Some(op) => seq![Signal::Edit(op)],
                None => Seq::empty(),
            },
            _ => Seq::empty(),
        },
        Variant::Chord => match event {
            KeyEvent::Press(key) => match edit_of_key_spec(key) {
                Some(op) => seq![Signal::Begin, Signal::Edit(op), Signal::End],
                None => Seq::empty(),
            },
            _ => Seq::empty(),
        },
    }
}

/// The signals that an event stands for, in the order in which the session
/// is to take them.
pub fn signals(variant: Variant, event: KeyEvent) -> (signals: Vec<Signal>)
    ensures
        signals@ == signals_of(variant, event),
{
    let mut signals: Vec<Signal> = Vec::new();
    match variant {
        Variant::HeldModifier => match event {
            KeyEvent::Press(Key::Alt) => {
                signals.push(Signal::Begin);
            },
            KeyEvent::Release(Key::Alt) => {
                signals.push(Signal::End);
            },
            KeyEvent::Press(key) => match edit_of_key(key) {
                Some(op) => {
                    signals.push(Signal::Edit(op));
                },
                None => {},
            },
            _ => {},
        },
        Variant::Chord => match event {
            KeyEvent::Press(key) => match edit_of_key(key) {
                Some(op) => {
                    signals.push(Signal::Begin);
                    signals.push(Signal::Edit(op));
                    signals.push(Signal::End);
                },
                None => {},
            },
            _ => {},
        },
    }
    assert(signals@ =~= signals_of(variant, event));
    signals
}

/// Whether an event is kept from the application in front: only the press
/// of an edit key, only while a held-modifier session is open.
pub open spec fn swallows(variant: Variant, state: Option<Style>, event: KeyEvent) -> bool {
    &&& variant == Variant::HeldModifier
    &&& state is Some
    &&& event matches KeyEvent::Press(key)
    &&& edit_of_key_spec(key) is Some
}

/// The texts of a list of fragments.
pub open spec fn texts(fragments: Seq<String>) -> Seq<Seq<char>> {
    Seq::new(fragments.len(), |i: int| fragments[i]@)
}

/// What the host is to do after an event.
#[derive(Clone, Debug, PartialEq, Eq)]
pub struct Dispatch {
    /// Whether the event is withheld from the application in front.
    pub swallow: bool,
    /// The fragments to deliver, in order.
    pub fragments: Vec<String>,
}

/// Drives one accumulation session from the host's key events.
#[derive(Clone, Copy, Debug, PartialEq, Eq)]
pub struct HotkeyListener {
    variant: Variant,
    session: StyleAccumulator,
}

impl View for HotkeyListener {
    type V = Option<Style>;

    closed spec fn view(&self) -> Option<Style> {
        self.session@
    }
}

impl HotkeyListener {
    /// The variant that the listener was made for.
    pub closed spec fn variant_spec(&self) -> Variant {
        self.variant
    }

    /// A listener for the held-modifier variant, with no session open.
    pub fn new() -> (listener: Self)
        ensures
            listener@ is None,
            listener.variant_spec() == Variant::HeldModifier,
    {
        HotkeyListener { variant: Variant::HeldModifier, session: StyleAccumulator::new() }
    }

    /// A listener for the given variant, with no session open.
    pub fn with_variant(variant: Variant) -> (listener: Self)
        ensures
            listener@ is None,
            listener.variant_spec() == variant,
    {
        HotkeyListener { variant, session: StyleAccumulator::new() }
    }

    /// The variant that the listener was made for.
    #[verifier::when_used_as_spec(variant_spec)]
    pub fn variant(&self) -> (variant: Variant)
        ensures
            variant == self.variant_spec(),
    {
        self.variant
    }

    /// The style in progress, if a session is open.
    pub fn style(&self) -> (style: Option<Style>)
        ensures
            style == self@,
    {
        self.session.style()
    }

    /// Takes the next event. The event's signals are run through the
    /// session in order; the result holds what they committed and says
    /// whether the event is swallowed.
    pub fn callback(&mut self, event: KeyEvent) -> (dispatch: Dispatch)
        ensures
            final(self).variant_spec() == old(self).variant_spec(),
            final(self)@ == run(old(self)@, signals_of(old(self).variant_spec(), event)).0,
            texts(dispatch.fragments@) == run(
                old(self)@,
                signals_of(old(self).variant_spec(), event),
            ).1,
            dispatch.swallow == swallows(old(self).variant_spec(), old(self)@, event),
    {
        let ghost start = self.session@;
        let variant = self.variant;
        let swallow = match (variant, event) {
            (Variant::HeldModifier, KeyEvent::Press(key)) => self.session.is_accumulating()
                && edit_of_key(key).is_some(),
            _ => false,
        };
        let signals = signals(variant, event);
        let mut fragments: Vec<String> = Vec::new();
        let mut i: usize = 0;
        assert(signals@.take(0) =~= Seq::<Signal>::empty());
        assert(texts(fragments@) =~= Seq::<Seq<char>>::empty());
        while i < signals.len()
            invariant
                i <= signals.len(),
                self.variant == variant,
                self.session@ == run(start, signals@.take(i as int)).0,
                texts(fragments@) == run(start, signals@.take(i as int)).1,
            decreases signals.len() - i,
        {
            let ghost committed = fragments@;
            let fragment = self.session.signal(signals[i]);
            proof {
                let prefix = signals@.take(i + 1);
                assert(prefix.drop_last() =~= signals@.take(i as int));
                assert(prefix.last() == signals@[i as int]);
            }
            match fragment {
                Some(text) => {
                    fragments.push(text);
                    assert(texts(fragments@) =~= texts(committed).push(text@));
                },
                None => {},
            }
            i += 1;
        }
        assert(signals@.take(signals.len() as int) =~= signals@);
        Dispatch { swallow, fragments }
    }
}

/// An event commits at most one fragment.
pub proof fn lemma_one_fragment_at_most(variant: Variant, state: Option<Style>, event: KeyEvent)
    ensures
        run(state, signals_of(variant, event)).1.len() <= 1,
{
    let signals = signals_of(variant, event);
    if signals.len() == 1 {
        lemma_run_one(state, signals[0]);
        assert(signals =~= seq![signals[0]]);
    } else if signals.len() == 3 {
        let first = seq![signals[0], signals[1]];
        let begin = seq![signals[0]];
        let edit = seq![signals[1]];
        let end = seq![signals[2]];
        assert(begin + edit =~= first);
        assert(first + end =~= signals);
        lemma_run_one(state, signals[0]);
        lemma_run_one(run(state, begin).0, signals[1]);
        lemma_run_splits(state, begin, edit);
        lemma_run_one(run(state, first).0, signals[2]);
        lemma_run_splits(state, first, end);
    } else {
        assert(signals =~= Seq::<Signal>::empty());
    }
}

/// With chords the listener is idle between events, and every chord on an
/// edit key commits the fragment of that one edit.
pub proof fn lemma_chord_is_a_session(key: Key)
    requires
        edit_of_key_spec(key) is Some,
    ensures
        run(None, signals_of(Variant::Chord, KeyEvent::Press(key))) == (
            None::<Style>,
            seq![Style::empty().applied(edit_of_key_spec(key)->0).fragment_text()],
        ),
{
    let op = edit_of_key_spec(key)->0;
    let ops = seq![op];
    lemma_session_commits_its_edits(ops);
    assert(session(ops) =~= signals_of(Variant::Chord, KeyEvent::Press(key)));
    assert(ops.drop_last() =~= Seq::<EditOp>::empty());
    assert(ops.last() == op);
    assert(Style::empty().applied_all(ops.drop_last()) == Style::empty());
    assert(Style::empty().applied_all(ops) == Style::empty().applied(op));
}

/// What the listener makes of a run of events, taken one by one in the
/// order given, each as `callback` takes it: the state after the last one,
/// and all fragments committed, in order.
pub open spec fn listen(variant: Variant, state: Option<Style>, events: Seq<KeyEvent>) -> (
    Option<Style>,
    Seq<Seq<char>>,
)
    decreases events.len(),
{
    if events.len() == 0 {
        (state, Seq::empty())
    } else {
        let before = listen(variant, state, events.drop_last());
        let last = run(before.0, signals_of(variant, events.last()));
        (last.0, before.1 + last.1)
    }
}

/// The presses of a run of keys.
pub open spec fn presses(keys: Seq<Key>) -> Seq<KeyEvent> {
    Seq::new(keys.len(), |i: int| KeyEvent::Press(keys[i]))
}

/// The edits of a run of edit keys.
pub open spec fn edits(keys: Seq<Key>) -> Seq<EditOp> {
    Seq::new(keys.len(), |i: int| edit_of_key_spec(keys[i])->0)
}

/// While the modifier is held, the presses of edit keys add up in the open
/// session and commit nothing.
pub proof fn lemma_held_keys_accumulate(keys: Seq<Key>)
    requires
        forall|i: int| 0 <= i < keys.len() ==> edit_of_key_spec(#[trigger] keys[i]) is Some,
    ensures
        listen(Variant::HeldModifier, None, seq![KeyEvent::Press(Key::Alt)] + presses(keys)) == (
            Some(Style::empty().applied_all(edits(keys))),
            Seq::<Seq<char>>::empty(),
        ),
    decreases keys.len(),
{
    let events = seq![KeyEvent::Press(Key::Alt)] + presses(keys);
    if keys.len() == 0 {
        assert(events.drop_last() =~= Seq::<KeyEvent>::empty());
        assert(events.last() == KeyEvent::Press(Key::Alt));
        assert(listen(Variant::HeldModifier, None, events.drop_last()) == (
            None::<Style>,
            Seq::<Seq<char>>::empty(),
        ));
        lemma_run_one(None, Signal::Begin);
        assert(Seq::<Seq<char>>::empty() + Seq::<Seq<char>>::empty() =~= Seq::<
            Seq<char>,
        >::empty());
    } else {
        let shorter = keys.drop_last();
        lemma_held_keys_accumulate(shorter);
        assert(events.drop_last() =~= seq![KeyEvent::Press(Key::Alt)] + presses(shorter));
        assert(events.last() == KeyEvent::Press(keys.last()));
        let op = edit_of_key_spec(keys.last())->0;
        lemma_run_one(Some(Style::empty().applied_all(edits(shorter))), Signal::Edit(op));
        assert(edits(keys).drop_last() =~= edits(shorter));
        assert(edits(keys).last() == op);
        assert(Seq::<Seq<char>>::empty() + Seq::<Seq<char>>::empty() =~= Seq::<
            Seq<char>,
        >::empty());
    }
}

/// Pressing the modifier, then edit keys, then releasing the modifier
/// commits exactly one fragment: that of the empty style with the keys'
/// edits applied in the order of the presses. The listener is idle
/// afterwards.
pub proof fn lemma_held_modifier_session(keys: Seq<Key>)
    requires
        forall|i: int| 0 <= i < keys.len() ==> edit_of_key_spec(#[trigger] keys[i]) is Some,
    ensures
        listen(
            Variant::HeldModifier,
            None,
            seq![KeyEvent::Press(Key::Alt)] + presses(keys) + seq![KeyEvent::Release(Key::Alt)],
        ) == (None::<Style>, seq![Style::empty().applied_all(edits(keys)).fragment_text()]),
{
    let held = seq![KeyEvent::Press(Key::Alt)] + presses(keys);
    let events = held + seq![KeyEvent::Release(Key::Alt)];
    lemma_held_keys_accumulate(keys);
    assert(events.drop_last() =~= held);
    assert(events.last() == KeyEvent::Release(Key::Alt));
    let style = Style::empty().applied_all(edits(keys));
    lemma_run_one(Some(style), Signal::End);
    assert(Seq::<Seq<char>>::empty() + seq![style.fragment_text()] =~= seq![
        style.fragment_text(),
    ]);
}

} // verus!
