use vstd::prelude::*;

verus! {

/// An editable value held by an input widget.
///
/// A value is seen through its view; each operation is described by a spec
/// function on views, so that what the input reducer does to a widget can be
/// stated exactly.
pub trait InputWidgetValue: View + Sized {
    /// The text that a value with view `m` shows.
    spec fn shown_of(m: Self::V) -> Seq<char>;

    /// The view after one character has been typed into a value with view `m`.
    spec fn input_of(m: Self::V, c: char) -> Self::V;

    /// The view after one backspace on a value with view `m`.
    spec fn backspace_of(m: Self::V) -> Self::V;

    /// Removes the last unit of content; a value that shows nothing stays as it is.
    fn backspace(&mut self)
        ensures
            final(self)@ == Self::backspace_of(old(self)@),
            Self::shown_of(old(self)@).len() == 0 ==> Self::shown_of(final(self)@) == Self::shown_of(
                old(self)@,
            ),
    ;

    /// Applies one typed character (an implementation may drop characters it rejects).
    fn on_input(&mut self, c: char)
        ensures
            final(self)@ == Self::input_of(old(self)@, c),
    ;

    /// The text to display; leaves the value unchanged.
    fn peek(&self) -> (r: String)
        ensures
            r@ == Self::shown_of(self@),
    ;

    /// A copy of the value, as written into a graph node.
    fn duplicate(&self) -> (r: Self)
        ensures
            r@ == self@,
    ;
}

/// A value that is plain text: typed characters are appended, a backspace
/// removes the last character.
pub struct TextValue {
    pub text: String,
}

/// Relies on `String::push`: appends one character at the end.
#[verifier::external_body]
fn push_char(s: &mut String, c: char)
    ensures
        final(s)@ == old(s)@.push(c),
{
    s.push(c)
}

/// Relies on `String::pop`: removes the last character and returns it, or
/// returns `None` and leaves the string as it is when it is empty.
#[verifier::external_body]
fn pop_char(s: &mut String) -> (r: Option<char>)
    ensures
        old(s)@.len() == 0 ==> r is None && final(s)@ == old(s)@,
        old(s)@.len() > 0 ==> r == Some(old(s)@.last()) && final(s)@ == old(s)@.drop_last(),
{
    s.pop()
}

impl TextValue {
    /// An empty text value.
    pub fn new() -> (r: TextValue)
        ensures
            r@ == Seq::<char>::empty(),
    {
        TextValue { text: String::new() }
    }
}

impl View for TextValue {
    type V = Seq<char>;

    open spec fn view(&self) -> Seq<char> {
        self.text@
    }
}

impl InputWidgetValue for TextValue {
    open spec fn shown_of(m: Seq<char>) -> Seq<char> {
        m
    }

    open spec fn input_of(m: Seq<char>, c: char) -> Seq<char> {
        m.push(c)
    }

    open spec fn backspace_of(m: Seq<char>) -> Seq<char> {
        if m.len() == 0 {
            m
        } else {
            m.drop_last()
        }
    }

    fn backspace(&mut self) {
        pop_char(&mut self.text);
    }

    fn on_input(&mut self, c: char) {
        push_char(&mut self.text, c);
    }

    fn peek(&self) -> (r: String) {
        self.text.clone()
    }

    fn duplicate(&self) -> (r: TextValue) {
        TextValue { text: self.text.clone() }
    }
}

} // verus!
