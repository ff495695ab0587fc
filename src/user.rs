//! Keys, the prompt widgets as one tagged type, and the handshake by which a
//! worker thread hands a prompt to the render loop and waits for its answer.

use vstd::prelude::*;
use std::sync::mpsc::{Receiver, Sender};
use crate::choices::{clamped, selection_after_keys, text_after_keys, EnumInput, TextInput};

verus! {

/// A key press, as the prompt widgets see it.
#[derive(Clone, Copy, Debug, PartialEq, Eq, Structural)]
pub enum Key {
    Enter,
    Backspace,
    Up,
    Down,
    Esc,
    Char(char),
    Other,
}

/// What a prompt reports after taking a batch of keys.
#[derive(Clone, Copy, Debug, PartialEq, Eq, Structural)]
pub enum ChoiceResult {
    /// The prompt stays active.
    Continue,
    /// The prompt is complete and leaves the screen.
    Remove,
}

/// Position of the first `Enter` among `keys`, or `keys.len()` if there is none:
/// the keys a prompt takes from a batch are the ones before it.
pub open spec fn first_enter(keys: Seq<Key>) -> nat
    decreases keys.len(),
{
    if keys.len() == 0 {
        0
    } else if keys[0] is Enter {
        0
    } else {
        1 + first_enter(keys.drop_first())
    }
}

/// The first `Enter` of `keys` is at `i`, or there is none and `i` is the length.
pub proof fn lemma_first_enter_at(keys: Seq<Key>, i: int)
    requires
        0 <= i <= keys.len(),
        forall|j: int| 0 <= j < i ==> !(#[trigger] keys[j] is Enter),
        i == keys.len() || keys[i] is Enter,
    ensures
        first_enter(keys) == i,
    decreases i,
{
    if i > 0 {
        let rest = keys.drop_first();
        assert forall|j: int| 0 <= j < i - 1 implies !(#[trigger] rest[j] is Enter) by {
            assert(rest[j] == keys[j + 1]);
        }
        lemma_first_enter_at(rest, i - 1);
    }
}

/// The first `Enter` is never past the end.
pub proof fn lemma_first_enter_bound(keys: Seq<Key>)
    ensures
        first_enter(keys) <= keys.len(),
    decreases keys.len(),
{
    if keys.len() > 0 && !(keys[0] is Enter) {
        lemma_first_enter_bound(keys.drop_first());
    }
}

/// The first `Enter` of `a + b`, when `a` holds none, is the first of `b`.
pub proof fn lemma_first_enter_after(a: Seq<Key>, b: Seq<Key>)
    requires
        first_enter(a) == a.len(),
    ensures
        first_enter(a + b) == a.len() + first_enter(b),
    decreases a.len(),
{
    if a.len() == 0 {
        assert(a + b =~= b);
    } else {
        assert((a + b).drop_first() =~= a.drop_first() + b);
        lemma_first_enter_after(a.drop_first(), b);
    }
}

/// The keys of `batches`, one tick after another, in arrival order.
pub open spec fn arrived(batches: Seq<Seq<Key>>) -> Seq<Key>
    decreases batches.len(),
{
    if batches.len() == 0 {
        Seq::empty()
    } else {
        arrived(batches.drop_last()) + batches.last()
    }
}

/// The keys a prompt takes over the ticks of `batches`: from each batch, the
/// ones before its first `Enter`.
pub open spec fn taken_keys(batches: Seq<Seq<Key>>) -> Seq<Key>
    decreases batches.len(),
{
    if batches.len() == 0 {
        Seq::empty()
    } else {
        let last = batches.last();
        taken_keys(batches.drop_last()) + last.take(first_enter(last) as int)
    }
}

/// No batch of `batches` but possibly the last holds an `Enter`: the prompt
/// stayed active until the last tick.
pub open spec fn open_until_last(batches: Seq<Seq<Key>>) -> bool {
    forall|i: int|
        0 <= i < batches.len() - 1 ==> first_enter(#[trigger] batches[i]) == batches[i].len()
}

proof fn lemma_open_batches(batches: Seq<Seq<Key>>)
    requires
        forall|i: int|
            0 <= i < batches.len() ==> first_enter(#[trigger] batches[i]) == batches[i].len(),
    ensures
        first_enter(arrived(batches)) == arrived(batches).len(),
        taken_keys(batches) == arrived(batches),
    decreases batches.len(),
{
    if batches.len() == 0 {
        assert(Seq::<Key>::empty().len() == 0);
    } else {
        let prev = batches.drop_last();
        let last = batches.last();
        assert forall|i: int| 0 <= i < prev.len() implies first_enter(#[trigger] prev[i])
            == prev[i].len() by {
            assert(prev[i] == batches[i]);
        }
        lemma_open_batches(prev);
        assert(first_enter(batches[batches.len() - 1]) == last.len());
        lemma_first_enter_after(arrived(prev), last);
        assert(last.take(first_enter(last) as int) =~= last);
    }
}

/// Over any number of ticks, a prompt that stays active until the last one
/// takes exactly the keys in the order they arrived, up to the first `Enter`,
/// each once; none after it.
pub proof fn lemma_ticks_taken_in_arrival_order(batches: Seq<Seq<Key>>)
    requires
        open_until_last(batches),
    ensures
        taken_keys(batches) == arrived(batches).take(first_enter(arrived(batches)) as int),
{
    if batches.len() == 0 {
        assert(Seq::<Key>::empty().take(0) =~= Seq::<Key>::empty());
    } else {
        let prev = batches.drop_last();
        let last = batches.last();
        assert forall|i: int| 0 <= i < prev.len() implies first_enter(#[trigger] prev[i])
            == prev[i].len() by {
            assert(prev[i] == batches[i]);
        }
        lemma_open_batches(prev);
        lemma_first_enter_after(arrived(prev), last);
        lemma_first_enter_bound(last);
        assert((arrived(prev) + last).take(first_enter(arrived(prev) + last) as int) =~= arrived(
            prev,
        ) + last.take(first_enter(last) as int));
    }
}

#[verifier::external_type_specification]
#[verifier::external_body]
#[verifier::reject_recursive_types(T)]
pub struct ExSender<T>(Sender<T>);

#[verifier::external_type_specification]
#[verifier::external_body]
#[verifier::reject_recursive_types(T)]
pub struct ExReceiver<T>(Receiver<T>);

/// Relies on `std::sync::mpsc::channel`: a new sender and its receiver.
#[verifier::external_body]
fn signal_channel() -> (Sender<()>, Receiver<()>) {
    std::sync::mpsc::channel()
}

/// Relies on `Sender::send`: queues the signal, or fails once the receiver is
/// gone; never blocks.
#[verifier::external_body]
fn send_signal(sender: &Sender<()>) -> bool {
    sender.send(()).is_ok()
}

/// Relies on `Receiver::recv`: blocks until a signal arrives, or fails once
/// every sender is gone.
#[verifier::external_body]
fn receive_signal(receiver: &Receiver<()>) -> bool {
    receiver.recv().is_ok()
}

/// A prompt: one of the widgets.
pub enum Choice {
    Text(TextInput),
    Enum(EnumInput),
}

/// `after` is `before` once it has taken the keys of `keys` before the first
/// `Enter`.
pub open spec fn stepped(before: Choice, after: Choice, keys: Seq<Key>) -> bool {
    let taken = keys.take(first_enter(keys) as int);
    match (before, after) {
        (Choice::Text(b), Choice::Text(a)) => {
            &&& a.text_spec() == text_after_keys(b.input_type_spec(), b.text_spec(), taken)
            &&& a.input_type_spec() == b.input_type_spec()
            &&& a.title_spec() == b.title_spec()
        },
        (Choice::Enum(b), Choice::Enum(a)) => {
            &&& a.selected_spec() == clamped(
                selection_after_keys(b.selected_spec(), taken),
                b.choices_spec().len(),
            )
            &&& first_enter(keys) < keys.len() ==> a.chosen_spec() == a.selected_spec()
            &&& first_enter(keys) >= keys.len() ==> a.chosen_spec() == b.chosen_spec()
            &&& a.choices_spec() == b.choices_spec()
            &&& a.title_spec() == b.title_spec()
        },
        _ => false,
    }
}

impl Choice {
    /// Takes the keys of one tick; `Remove` once the prompt is complete.
    pub fn step(&mut self, keys: &Vec<Key>) -> (r: ChoiceResult)
        ensures
            (r is Remove) == (first_enter(keys@) < keys@.len()),
            stepped(*old(self), *final(self), keys@),
    {
        match self {
            Choice::Text(t) => t.step(keys),
            Choice::Enum(e) => e.step(keys),
        }
    }
}

/// Returned by `UserInput::set` while another prompt is still unanswered.
#[derive(Clone, Copy, Debug, PartialEq, Eq, Structural)]
pub struct PromptConflict;

/// The worker's handle on a submitted prompt.
pub struct UserInputFuture {
    rec: Receiver<()>,
}

impl UserInputFuture {
    /// Blocks until the prompt is answered. Returns `false` if the render side
    /// was dropped before it answered.
    pub fn wait(&self) -> (r: bool) {
        receive_signal(&self.rec)
    }
}

/// The single active prompt together with the sender that signals its
/// completion, the keys of the current tick, and the answered prompt that the
/// worker has not collected yet. A sender is used once, when its prompt leaves.
pub struct UserInput {
    current_choice: Option<(Choice, Sender<()>)>,
    event_queue: Option<Vec<Key>>,
    answered: Option<Choice>,
}

/// The keys waiting for the next draw.
pub open spec fn pending_keys(queue: Option<Seq<Key>>) -> Seq<Key> {
    match queue {
        Some(keys) => keys,
        None => Seq::empty(),
    }
}

/// `after` is `before` once a draw has driven the active prompt with the
/// queued keys, which are used up. A prompt that completes leaves the screen
/// for the answer slot and its completion sender is spent; one that does not
/// stays active with the same sender.
pub open spec fn drew(before: UserInput, after: UserInput) -> bool {
    let keys = pending_keys(before.queued());
    &&& after.queued() is None
    &&& match before.active() {
        None => {
            &&& after.active() is None
            &&& after.signal() == before.signal()
            &&& after.answer() == before.answer()
        },
        Some(prompt) => if first_enter(keys) < keys.len() {
            &&& after.active() is None
            &&& after.signal() is None
            &&& after.answer() matches Some(done)
            &&& stepped(prompt, done, keys)
        } else {
            &&& after.active() matches Some(still)
            &&& stepped(prompt, still, keys)
            &&& after.signal() == before.signal()
            &&& after.answer() == before.answer()
        },
    }
}

/// What a draw reports: nothing without an active prompt, else whether the
/// prompt completed on the queued keys.
pub open spec fn drawn_result(before: UserInput) -> Option<ChoiceResult> {
    let keys = pending_keys(before.queued());
    match before.active() {
        None => None,
        Some(_) => if first_enter(keys) < keys.len() {
            Some(ChoiceResult::Remove)
        } else {
            Some(ChoiceResult::Continue)
        },
    }
}

impl UserInput {
    /// The prompt on screen.
    pub closed spec fn active(&self) -> Option<Choice> {
        match self.current_choice {
            Some((choice, _)) => Some(choice),
            None => None,
        }
    }

    /// The sender that signals the active prompt's completion to the worker.
    pub closed spec fn signal(&self) -> Option<Sender<()>> {
        match self.current_choice {
            Some((_, sender)) => Some(sender),
            None => None,
        }
    }

    /// The keys handed over by the last tick and not yet drawn.
    pub closed spec fn queued(&self) -> Option<Seq<Key>> {
        match self.event_queue {
            Some(keys) => Some(keys@),
            None => None,
        }
    }

    /// The completed prompt, until the worker collects it.
    pub closed spec fn answer(&self) -> Option<Choice> {
        self.answered
    }

    pub fn new() -> (r: Self)
        ensures
            r.active() is None,
            r.signal() is None,
            r.queued() is None,
            r.answer() is None,
    {
        UserInput { current_choice: None, event_queue: None, answered: None }
    }

    /// Makes `choice` the active prompt and returns the handle to wait on, or
    /// rejects it, changing nothing, while another prompt is active.
    pub fn set(&mut self, choice: Choice) -> (r: Result<UserInputFuture, PromptConflict>)
        ensures
            old(self).active() is Some ==> r is Err && *final(self) == *old(self),
            old(self).active() is None ==> {
                &&& r is Ok
                &&& final(self).active() == Some(choice)
                &&& final(self).signal() is Some
                &&& final(self).answer() is None
                &&& final(self).queued() == old(self).queued()
            },
    {
        if self.current_choice.is_some() {
            return Err(PromptConflict);
        }
        let (sender, rec) = signal_channel();
        self.current_choice = Some((choice, sender));
        self.answered = None;
        Ok(UserInputFuture { rec })
    }

    /// Retires the active prompt, keeps it as the answer and wakes the worker.
    pub fn unset(&mut self)
        ensures
            final(self).active() is None,
            final(self).signal() is None,
            final(self).answer() == if old(self).active() is Some {
                old(self).active()
            } else {
                old(self).answer()
            },
            final(self).queued() == old(self).queued(),
    {
        if let Some((choice, sender)) = self.current_choice.take() {
            self.answered = Some(choice);
            send_signal(&sender);
        }
    }

    /// Hands over the keys of one tick, in arrival order.
    pub fn tick(&mut self, event_queue: &Vec<Key>)
        ensures
            final(self).queued() == Some(event_queue@),
            final(self).active() == old(self).active(),
            final(self).signal() == old(self).signal(),
            final(self).answer() == old(self).answer(),
    {
        let mut keys: Vec<Key> = Vec::new();
        let mut i: usize = 0;
        while i < event_queue.len()
            invariant
                i <= event_queue@.len(),
                keys@ == event_queue@.take(i as int),
            decreases event_queue@.len() - i,
        {
            keys.push(event_queue[i]);
            i += 1;
            assert(keys@ =~= event_queue@.take(i as int));
        }
        assert(keys@ =~= event_queue@);
        self.event_queue = Some(keys);
    }

    /// Drives the active prompt with the queued keys, which are used up; a
    /// prompt that completes is retired as by `unset`.
    pub fn draw(&mut self) -> (r: Option<ChoiceResult>)
        ensures
            drew(*old(self), *final(self)),
            r == drawn_result(*old(self)),
    {
        let keys = match self.event_queue.take() {
            Some(keys) => keys,
            None => Vec::new(),
        };
        assert(keys@ =~= pending_keys(old(self).queued()));
        match self.current_choice.take() {
            None => None,
            Some((mut choice, sender)) => {
                let result = choice.step(&keys);
                match result {
                    ChoiceResult::Remove => {
                        self.answered = Some(choice);
                        send_signal(&sender);
                    },
                    ChoiceResult::Continue => {
                        self.current_choice = Some((choice, sender));
                    },
                }
                Some(result)
            },
        }
    }

    /// Hands the answered prompt to the worker, once.
    pub fn take_answer(&mut self) -> (r: Option<Choice>)
        ensures
            r == old(self).answer(),
            final(self).answer() is None,
            final(self).active() == old(self).active(),
            final(self).signal() == old(self).signal(),
            final(self).queued() == old(self).queued(),
    {
        self.answered.take()
    }

    /// The prompt on screen, for rendering.
    pub fn current(&self) -> (r: Option<&Choice>)
        ensures
            r == match self.active() {
                Some(c) => Some(&c),
                None => None,
            },
    {
        match &self.current_choice {
            Some((choice, _)) => Some(choice),
            None => None,
        }
    }
}

} // verus!
