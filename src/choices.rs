//! The prompt widgets: a one-line text field and a selection list, each a
//! state machine driven by batches of keys.

use vstd::prelude::*;
use crate::text::string_from_chars;
use crate::user::{
    arrived, first_enter, lemma_first_enter_at, lemma_ticks_taken_in_arrival_order, open_until_last,
    taken_keys, Choice, ChoiceResult, Key,
};

verus! {

/// What a text field accepts.
#[derive(Clone, Copy, Debug, PartialEq, Eq, Structural)]
pub enum TextInputType {
    /// Any character.
    String,
    /// Numeric characters and `.` only, for version numbers.
    Version,
}

/// Whether `char::is_numeric` holds of a character (Unicode number categories).
pub uninterp spec fn is_numeric_char(c: char) -> bool;

/// Relies on `char::is_numeric`, which depends on the character alone; of
/// the ASCII characters only the digits fall in the number categories.
#[verifier::external_body]
fn is_numeric(c: char) -> (r: bool)
    ensures
        r == is_numeric_char(c),
        (c as u32) < 128 ==> (r == ('0' <= c && c <= '9')),
{
    c.is_numeric()
}

/// Whether a field of the given type takes `c`, where `numeric` tells whether
/// `c` is numeric.
pub open spec fn accepts_spec(input_type: TextInputType, c: char, numeric: bool) -> bool {
    numeric || c == '.' || input_type is String
}

/// Whether a field of the given type takes `c`, where `numeric` tells whether
/// `c` is numeric.
pub fn accepts(input_type: TextInputType, c: char, numeric: bool) -> (r: bool)
    ensures
        r == accepts_spec(input_type, c, numeric),
{
    numeric || c == '.' || matches!(input_type, TextInputType::String)
}

/// The text of a field after one key other than `Enter`.
pub open spec fn text_after_key(input_type: TextInputType, text: Seq<char>, key: Key) -> Seq<
    char,
> {
    match key {
        Key::Backspace => if text.len() > 0 {
            text.drop_last()
        } else {
            text
        },
        Key::Char(c) => if accepts_spec(input_type, c, is_numeric_char(c)) {
            text.push(c)
        } else {
            text
        },
        _ => text,
    }
}

/// The text of a field after `keys`, taken in order.
pub open spec fn text_after_keys(input_type: TextInputType, text: Seq<char>, keys: Seq<Key>) -> Seq<
    char,
>
    decreases keys.len(),
{
    if keys.len() == 0 {
        text
    } else {
        text_after_key(input_type, text_after_keys(input_type, text, keys.drop_last()), keys.last())
    }
}

/// A one-line text field.
pub struct TextInput {
    input_type: TextInputType,
    title: String,
    text: Vec<char>,
}

impl TextInput {
    pub closed spec fn input_type_spec(&self) -> TextInputType {
        self.input_type
    }

    pub closed spec fn title_spec(&self) -> Seq<char> {
        self.title@
    }

    /// The text typed so far.
    pub closed spec fn text_spec(&self) -> Seq<char> {
        self.text@
    }

    pub fn new(input_type: TextInputType, title: &str) -> (r: Self)
        ensures
            r.input_type_spec() == input_type,
            r.title_spec() == title@,
            r.text_spec() == Seq::<char>::empty(),
    {
        let title = title.to_string();
        TextInput { input_type, title, text: Vec::new() }
    }

    /// Takes the keys of one tick, in order, up to the first `Enter`, which
    /// completes the field.
    pub fn step(&mut self, keys: &Vec<Key>) -> (r: ChoiceResult)
        ensures
            (r is Remove) == (first_enter(keys@) < keys@.len()),
            final(self).text_spec() == text_after_keys(
                old(self).input_type_spec(),
                old(self).text_spec(),
                keys@.take(first_enter(keys@) as int),
            ),
            final(self).input_type_spec() == old(self).input_type_spec(),
            final(self).title_spec() == old(self).title_spec(),
    {
        let mut i: usize = 0;
        while i < keys.len()
            invariant
                i <= keys@.len(),
                forall|j: int| 0 <= j < i ==> !(#[trigger] keys@[j] is Enter),
                self.input_type == old(self).input_type,
                self.title == old(self).title,
                self.text@ == text_after_keys(
                    old(self).input_type,
                    old(self).text@,
                    keys@.take(i as int),
                ),
            decreases keys@.len() - i,
        {
            let key = keys[i];
            assert(keys@.take(i + 1).drop_last() =~= keys@.take(i as int));
            match key {
                Key::Enter => {
                    proof {
                        lemma_first_enter_at(keys@, i as int);
                    }
                    return ChoiceResult::Remove;
                },
                Key::Backspace => {
                    if self.text.len() > 0 {
                        self.text.pop();
                    }
                },
                Key::Char(c) => {
                    let numeric = is_numeric(c);
                    if accepts(self.input_type, c, numeric) {
                        self.text.push(c);
                    }
                },
                _ => {},
            }
            i += 1;
        }
        proof {
            lemma_first_enter_at(keys@, i as int);
            assert(keys@.take(i as int) =~= keys@.take(first_enter(keys@) as int));
        }
        ChoiceResult::Continue
    }

    /// The field as a prompt to submit.
    pub fn choice(self) -> (r: Choice)
        ensures
            r == Choice::Text(self),
    {
        Choice::Text(self)
    }

    /// The text typed so far.
    pub fn output(&self) -> (r: String)
        ensures
            r@ == self.text_spec(),
    {
        string_from_chars(&self.text)
    }

    pub fn title(&self) -> (r: &String)
        ensures
            r@ == self.title_spec(),
    {
        &self.title
    }

    /// Column of the cursor within the field: one past the last character.
    pub fn cursor_offset(&self) -> (r: usize)
        ensures
            r == self.text_spec().len(),
    {
        self.text.len()
    }
}

/// The selected index of a list after one key other than `Enter`: `Up` stops
/// at the top, `Down` may pass the bottom until the index is clamped.
pub open spec fn selection_after_key(selected: usize, key: Key) -> usize {
    match key {
        Key::Up => if selected > 0 {
            (selected - 1) as usize
        } else {
            selected
        },
        Key::Down => if selected < usize::MAX {
            (selected + 1) as usize
        } else {
            selected
        },
        _ => selected,
    }
}

/// The selected index of a list after `keys`, taken in order.
pub open spec fn selection_after_keys(selected: usize, keys: Seq<Key>) -> usize
    decreases keys.len(),
{
    if keys.len() == 0 {
        selected
    } else {
        selection_after_key(selection_after_keys(selected, keys.drop_last()), keys.last())
    }
}

/// `selected` brought into `[0, len - 1]`; 0 for an empty list.
pub open spec fn clamped(selected: usize, len: nat) -> usize {
    if len == 0 {
        0
    } else if selected >= len {
        (len - 1) as usize
    } else {
        selected
    }
}

/// `selected` brought into `[0, len - 1]`; 0 for an empty list.
fn clamp_index(selected: usize, len: usize) -> (r: usize)
    ensures
        r == clamped(selected, len as nat),
{
    if len == 0 {
        0
    } else if selected >= len {
        len - 1
    } else {
        selected
    }
}

/// A selection list.
pub struct EnumInput {
    choices: Vec<String>,
    title: String,
    selected: usize,
    chosen: usize,
}

impl EnumInput {
    pub closed spec fn choices_spec(&self) -> Seq<Seq<char>> {
        self.choices@.map_values(|s: String| s@)
    }

    pub closed spec fn title_spec(&self) -> Seq<char> {
        self.title@
    }

    /// The highlighted index.
    pub closed spec fn selected_spec(&self) -> usize {
        self.selected
    }

    /// The index confirmed with `Enter` (0 until then).
    pub closed spec fn chosen_spec(&self) -> usize {
        self.chosen
    }

    pub fn new(choices: Vec<String>, title: &str) -> (r: Self)
        ensures
            r.choices_spec() == choices@.map_values(|s: String| s@),
            r.title_spec() == title@,
            r.selected_spec() == 0,
            r.chosen_spec() == 0,
    {
        let title = title.to_string();
        EnumInput { choices, title, selected: 0, chosen: 0 }
    }

    /// Takes the keys of one tick, in order, up to the first `Enter`, which
    /// confirms the highlighted index. The index is then clamped to the list.
    pub fn step(&mut self, keys: &Vec<Key>) -> (r: ChoiceResult)
        ensures
            (r is Remove) == (first_enter(keys@) < keys@.len()),
            final(self).selected_spec() == clamped(
                selection_after_keys(
                    old(self).selected_spec(),
                    keys@.take(first_enter(keys@) as int),
                ),
                old(self).choices_spec().len(),
            ),
            r is Remove ==> final(self).chosen_spec() == final(self).selected_spec(),
            r is Continue ==> final(self).chosen_spec() == old(self).chosen_spec(),
            final(self).choices_spec() == old(self).choices_spec(),
            final(self).title_spec() == old(self).title_spec(),
    {
        let mut selection: usize = self.selected;
        let len = self.choices.len();
        let mut i: usize = 0;
        while i < keys.len()
            invariant
                i <= keys@.len(),
                len == old(self).choices@.len(),
                forall|j: int| 0 <= j < i ==> !(#[trigger] keys@[j] is Enter),
                selection == selection_after_keys(old(self).selected, keys@.take(i as int)),
                *self == *old(self),
            decreases keys@.len() - i,
        {
            let key = keys[i];
            assert(keys@.take(i + 1).drop_last() =~= keys@.take(i as int));
            match key {
                Key::Enter => {
                    proof {
                        lemma_first_enter_at(keys@, i as int);
                    }
                    let in_range = clamp_index(selection, len);
                    self.selected = in_range;
                    self.chosen = in_range;
                    return ChoiceResult::Remove;
                },
                Key::Up => {
                    if selection > 0 {
                        selection -= 1;
                    }
                },
                Key::Down => {
                    if selection < usize::MAX {
                        selection += 1;
                    }
                },
                _ => {},
            }
            i += 1;
        }
        proof {
            lemma_first_enter_at(keys@, i as int);
            assert(keys@.take(i as int) =~= keys@.take(first_enter(keys@) as int));
        }
        self.selected = clamp_index(selection, len);
        ChoiceResult::Continue
    }

    /// The list as a prompt to submit.
    pub fn choice(self) -> (r: Choice)
        ensures
            r == Choice::Enum(self),
    {
        Choice::Enum(self)
    }

    /// The index confirmed with `Enter`.
    pub fn output(&self) -> (r: usize)
        ensures
            r == self.chosen_spec(),
    {
        self.chosen
    }

    /// The highlighted index.
    pub fn selected(&self) -> (r: usize)
        ensures
            r == self.selected_spec(),
    {
        self.selected
    }

    pub fn choices(&self) -> (r: &Vec<String>)
        ensures
            r@.map_values(|s: String| s@) == self.choices_spec(),
    {
        &self.choices
    }

    pub fn title(&self) -> (r: &String)
        ensures
            r@ == self.title_spec(),
    {
        &self.title
    }
}

/// Keys delivered over two ticks reach a text field in arrival order: taking
/// `a` and then `b` leaves the same text as taking `a + b` at once.
pub proof fn lemma_text_keys_in_order(
    input_type: TextInputType,
    text: Seq<char>,
    a: Seq<Key>,
    b: Seq<Key>,
)
    ensures
        text_after_keys(input_type, text_after_keys(input_type, text, a), b) == text_after_keys(
            input_type,
            text,
            a + b,
        ),
    decreases b.len(),
{
    if b.len() == 0 {
        assert(a + b =~= a);
    } else {
        lemma_text_keys_in_order(input_type, text, a, b.drop_last());
        assert((a + b).drop_last() =~= a + b.drop_last());
    }
}

/// Keys delivered over two ticks reach a selection list in arrival order:
/// taking `a` and then `b` moves the highlight as taking `a + b` at once.
pub proof fn lemma_selection_keys_in_order(selected: usize, a: Seq<Key>, b: Seq<Key>)
    ensures
        selection_after_keys(selection_after_keys(selected, a), b) == selection_after_keys(
            selected,
            a + b,
        ),
    decreases b.len(),
{
    if b.len() == 0 {
        assert(a + b =~= a);
    } else {
        lemma_selection_keys_in_order(selected, a, b.drop_last());
        assert((a + b).drop_last() =~= a + b.drop_last());
    }
}

/// Once a batch holds an `Enter`, whatever follows it is never taken: a prompt
/// takes the same keys from `a + b` as from `a`, and completes on both.
pub proof fn lemma_no_key_after_enter(a: Seq<Key>, b: Seq<Key>)
    requires
        first_enter(a) < a.len(),
    ensures
        first_enter(a + b) == first_enter(a),
        first_enter(a + b) < (a + b).len(),
        (a + b).take(first_enter(a + b) as int) == a.take(first_enter(a) as int),
    decreases a.len(),
{
    if !(a[0] is Enter) {
        lemma_no_key_after_enter(a.drop_first(), b);
        assert((a + b).drop_first() =~= a.drop_first() + b);
    }
    assert((a + b).take(first_enter(a) as int) =~= a.take(first_enter(a) as int));
}

/// The text of a field after one draw per batch of `batches`, each draw taking
/// the keys before its batch's first `Enter`.
pub open spec fn text_after_ticks(
    input_type: TextInputType,
    text: Seq<char>,
    batches: Seq<Seq<Key>>,
) -> Seq<char>
    decreases batches.len(),
{
    if batches.len() == 0 {
        text
    } else {
        let last = batches.last();
        text_after_keys(
            input_type,
            text_after_ticks(input_type, text, batches.drop_last()),
            last.take(first_enter(last) as int),
        )
    }
}

/// Over any number of ticks, a text field that stays active until the last one
/// ends as if it had taken the arrived keys at once, in order, up to the first
/// `Enter`.
pub proof fn lemma_text_over_ticks(
    input_type: TextInputType,
    text: Seq<char>,
    batches: Seq<Seq<Key>>,
)
    requires
        open_until_last(batches),
    ensures
        text_after_ticks(input_type, text, batches) == text_after_keys(
            input_type,
            text,
            arrived(batches).take(first_enter(arrived(batches)) as int),
        ),
{
    lemma_text_after_taken_keys(input_type, text, batches);
    lemma_ticks_taken_in_arrival_order(batches);
}

proof fn lemma_text_after_taken_keys(
    input_type: TextInputType,
    text: Seq<char>,
    batches: Seq<Seq<Key>>,
)
    ensures
        text_after_ticks(input_type, text, batches) == text_after_keys(
            input_type,
            text,
            taken_keys(batches),
        ),
    decreases batches.len(),
{
    if batches.len() > 0 {
        let prev = batches.drop_last();
        let last = batches.last();
        lemma_text_after_taken_keys(input_type, text, prev);
        lemma_text_keys_in_order(
            input_type,
            text,
            taken_keys(prev),
            last.take(first_enter(last) as int),
        );
    }
}

} // verus!
