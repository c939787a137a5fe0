use vstd::prelude::*;

use crate::value::{InputWidgetValue, TextValue};

verus! {

/// The area allotted to a widget, in whole pixels.
#[derive(Clone, Copy, Debug, PartialEq, Eq, Structural)]
pub struct Size {
    pub width: u32,
    pub height: u32,
}

/// The character that erases the last unit of a widget's value.
pub const BACKSPACE: char = '\u{8}';

/// A character that is typed into a value: a graphic ASCII character.
pub open spec fn is_printable(c: char) -> bool {
    0x21 <= (c as u32) <= 0x7e
}

/// Whether `c` is a graphic ASCII character (`!` through `~`).
pub fn is_printable_char(c: char) -> (r: bool)
    ensures
        r == is_printable(c),
{
    let code = c as u32;
    0x21 <= code && code <= 0x7e
}

/// A text-entry widget: its focus and dirty flags, the area it was built
/// with, the visual element that displays its text, and its value.
pub struct InputWidget<V> {
    /// Whether typed characters go to this widget.
    pub active: bool,
    /// Whether the value changed since it was last published.
    pub dirty: bool,
    pub size: Size,
    /// The visual element that displays the text; `None` before `build`.
    pub text_entity: Option<usize>,
    pub value: V,
}

/// What an input widget is, with its value seen through the value's view.
pub struct InputWidgetState<M> {
    pub active: bool,
    pub dirty: bool,
    pub size: Size,
    pub text_entity: Option<usize>,
    pub value: M,
}

impl<V: View> View for InputWidget<V> {
    type V = InputWidgetState<V::V>;

    open spec fn view(&self) -> InputWidgetState<V::V> {
        InputWidgetState {
            active: self.active,
            dirty: self.dirty,
            size: self.size,
            text_entity: self.text_entity,
            value: self.value@,
        }
    }
}

/// The widget after one typed character: an active widget applies a
/// printable character or a backspace to its value and becomes dirty; any
/// other character, and every character sent to an inactive widget, changes
/// nothing.
pub open spec fn after_char<V: InputWidgetValue>(
    w: InputWidgetState<V::V>,
    c: char,
) -> InputWidgetState<V::V> {
    if w.active && is_printable(c) {
        InputWidgetState { dirty: true, value: V::input_of(w.value, c), ..w }
    } else if w.active && c == BACKSPACE {
        InputWidgetState { dirty: true, value: V::backspace_of(w.value), ..w }
    } else {
        w
    }
}

/// The widget after the characters `cs`, taken in order.
pub open spec fn after_chars<V: InputWidgetValue>(
    w: InputWidgetState<V::V>,
    cs: Seq<char>,
) -> InputWidgetState<V::V>
    decreases cs.len(),
{
    if cs.len() == 0 {
        w
    } else {
        after_char::<V>(after_chars::<V>(w, cs.drop_last()), cs.last())
    }
}

/// A widget that is not active is left as it is by any characters.
pub proof fn lemma_inactive_unchanged<V: InputWidgetValue>(w: InputWidgetState<V::V>, cs: Seq<char>)
    requires
        !w.active,
    ensures
        after_chars::<V>(w, cs) == w,
    decreases cs.len(),
{
    if cs.len() > 0 {
        lemma_inactive_unchanged::<V>(w, cs.drop_last());
    }
}

/// Printable characters typed into an active text widget are appended to
/// its text in the order they were typed, and leave it active.
pub proof fn lemma_typed_text_appended(w: InputWidgetState<Seq<char>>, cs: Seq<char>)
    requires
        w.active,
        forall|i: int| 0 <= i < cs.len() ==> is_printable(#[trigger] cs[i]),
    ensures
        after_chars::<TextValue>(w, cs).active,
        after_chars::<TextValue>(w, cs).value == w.value + cs,
    decreases cs.len(),
{
    if cs.len() == 0 {
        assert(w.value + cs =~= w.value);
    } else {
        let init = cs.drop_last();
        assert forall|i: int| 0 <= i < init.len() implies is_printable(#[trigger] init[i]) by {
            assert(init[i] == cs[i]);
        }
        lemma_typed_text_appended(w, init);
        assert(is_printable(cs[cs.len() - 1]));
        assert((w.value + init).push(cs.last()) =~= w.value + cs);
    }
}

impl<V: InputWidgetValue> InputWidget<V> {
    /// A widget holding `value`: not focused, clean, not built yet.
    pub fn new(value: V) -> (r: InputWidget<V>)
        ensures
            !r.active,
            !r.dirty,
            r.size == (Size { width: 0, height: 0 }),
            r.text_entity is None,
            r.value@ == value@,
    {
        InputWidget {
            active: false,
            dirty: false,
            size: Size { width: 0, height: 0 },
            text_entity: None,
            value,
        }
    }

    /// Records the area the widget was given and the visual element made
    /// to display its text.
    pub fn build(&mut self, area: Size, text_entity: usize)
        ensures
            final(self)@ == (InputWidgetState {
                size: area,
                text_entity: Some(text_entity),
                ..old(self)@
            }),
    {
        self.size = area;
        self.text_entity = Some(text_entity);
    }

    /// Stops routing typed characters to this widget.
    pub fn blur(&mut self)
        ensures
            final(self)@ == (InputWidgetState { active: false, ..old(self)@ }),
    {
        self.active = false;
    }

    /// This widget takes focus when clicked.
    pub fn can_click(&self) -> (r: bool)
        ensures
            r,
    {
        true
    }

    /// Marks the value as published.
    pub fn clean(&mut self)
        ensures
            final(self)@ == (InputWidgetState { dirty: false, ..old(self)@ }),
    {
        self.dirty = false;
    }

    /// Whether the value changed since it was last published.
    pub fn dirty(&self) -> (r: bool)
        ensures
            r == self.dirty,
    {
        self.dirty
    }

    /// Routes typed characters to this widget.
    pub fn focus(&mut self)
        ensures
            final(self)@ == (InputWidgetState { active: true, ..old(self)@ }),
    {
        self.active = true;
    }

    /// A copy of the value.
    pub fn get_value(&self) -> (r: V)
        ensures
            r@ == self.value@,
    {
        self.value.duplicate()
    }

    /// Replaces the value; the dirty flag is left as it is, so the new value
    /// is published only with the next typed change.
    pub fn set_value(&mut self, value: V)
        ensures
            final(self)@ == (InputWidgetState { value: value@, ..old(self)@ }),
    {
        self.value = value;
    }

    /// The area the widget was built with.
    pub fn size(&self) -> (r: Size)
        ensures
            r == self.size,
    {
        self.size
    }

    /// Takes the pending change: a dirty widget becomes clean and hands back
    /// a copy of its value to publish; a clean widget hands back nothing.
    pub fn take_update(&mut self) -> (r: Option<V>)
        ensures
            final(self)@ == (InputWidgetState { dirty: false, ..old(self)@ }),
            old(self).dirty <==> r is Some,
            r matches Some(v) ==> v@ == old(self).value@,
    {
        if self.dirty() {
            self.clean();
            Some(self.get_value())
        } else {
            None
        }
    }

    /// Handles one typed character.
    pub fn receive(&mut self, c: char)
        ensures
            final(self)@ == after_char::<V>(old(self)@, c),
    {
        if self.active {
            if is_printable_char(c) {
                self.value.on_input(c);
                self.dirty = true;
            } else if c == BACKSPACE {
                self.value.backspace();
                self.dirty = true;
            }
        }
    }

    /// Handles the typed characters `events`, in order.
    pub fn receive_all(&mut self, events: &Vec<char>)
        ensures
            final(self)@ == after_chars::<V>(old(self)@, events@),
    {
        let mut i: usize = 0;
        while i < events.len()
            invariant
                i <= events.len(),
                self@ == after_chars::<V>(old(self)@, events@.subrange(0, i as int)),
            decreases events.len() - i,
        {
            proof {
                let next = events@.subrange(0, i + 1);
                assert(next.drop_last() == events@.subrange(0, i as int));
            }
            self.receive(events[i]);
            i = i + 1;
        }
        proof {
            assert(events@.subrange(0, events@.len() as int) == events@);
        }
    }
}

} // verus!
