//! Text block widget state: multiline wrapped text.

use vstd::prelude::*;

verus! {

/// Multiline wrapped text block widget.
///
/// Renders its text top-left aligned, wrapping at the container width; an
/// empty text renders nothing.
#[derive(Clone, Debug)]
pub struct TextBlock {
    text: String,
}

impl TextBlock {
    /// The text block's content.
    pub closed spec fn content(&self) -> Seq<char> {
        self.text@
    }

    /// Creates a new, empty text block widget.
    pub fn new() -> (t: Self)
        ensures
            t.content() == Seq::<char>::empty(),
    {
        TextBlock { text: String::new() }
    }

    /// Returns the text block content, or `None` when it is empty.
    pub fn text(&self) -> (t: Option<&str>)
        ensures
            self.content().len() == 0 ==> t is None,
            self.content().len() > 0 ==> (t matches Some(s) && s@ == self.content()),
    {
        let s = self.text.as_str();
        if s.is_empty() {
            None
        } else {
            Some(s)
        }
    }

    /// Replaces the text block content.
    pub fn set_text(&mut self, text: &str)
        ensures
            final(self).content() == text@,
    {
        self.text = text.to_owned();
    }
}

} // verus!
