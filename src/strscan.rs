//! Reading a text one character at a time.
use vstd::prelude::*;
use crate::text::chars_of;

verus! {

/// Hands out the characters of a text in order, then nothing.
pub struct StringScanner {
    text: String,
    chars: Vec<char>,
    position: usize,
}

impl StringScanner {
    /// The characters of the text.
    pub closed spec fn chars(&self) -> Seq<char> {
        self.chars@
    }

    /// How many characters have been handed out.
    pub closed spec fn pos(&self) -> int {
        self.position as int
    }

    pub closed spec fn wf(&self) -> bool {
        self.chars@ == self.text@ && self.position <= self.chars@.len()
    }

    pub fn new(text: String) -> (r: Self)
        ensures
            r.wf(),
            r.chars() == text@,
            r.pos() == 0,
    {
        let chars = chars_of(text.as_str());
        StringScanner { text, chars, position: 0 }
    }

    /// The next character, or `None` once all were handed out.
    pub fn next(&mut self) -> (r: Option<char>)
        requires
            old(self).wf(),
        ensures
            final(self).wf(),
            final(self).chars() == old(self).chars(),
            old(self).pos() < old(self).chars().len() ==> r == Some(old(self).chars()[old(self).pos()])
                && final(self).pos() == old(self).pos() + 1,
            old(self).pos() >= old(self).chars().len() ==> r is None && final(self).pos() == old(self).pos(),
    {
        if self.position < self.chars.len() {
            let c = self.chars[self.position];
            self.position = self.position + 1;
            Some(c)
        } else {
            None
        }
    }
}

} // verus!
