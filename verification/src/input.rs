//! A one-line text field with a cursor.

use crate::text::{ascii_len, insert_char, push_char, remove_char};
use vstd::prelude::*;
use vstd::string::StringSliceAdditionalSpecFns;

verus! {

/// A line of text that is edited at a cursor. The cursor counts bytes, so
/// the field is only in order while its text is ASCII, where bytes and
/// characters are the same.
#[derive(Debug)]
pub struct LineEdit {
    pub value: String,
    pub cursor: usize,
    pub password: bool,
}

impl LineEdit {
    /// The text is ASCII and the cursor is within it or at its end.
    pub open spec fn wf(self) -> bool {
        &&& vstd::utf8::is_ascii_chars(self.value@)
        &&& self.cursor <= self.value@.len()
    }

    /// The number of bytes of the text.
    pub open spec fn byte_len(self) -> nat {
        vstd::utf8::encode_utf8(self.value@).len()
    }

    /// What is shown of a text: the text itself, or one star for each of its
    /// bytes.
    pub open spec fn rendered_spec(self) -> Seq<char> {
        if self.password {
            Seq::new(self.byte_len(), |i: int| '*')
        } else {
            self.value@
        }
    }

    /// In a text of ASCII characters there are as many bytes as characters.
    pub proof fn lemma_ascii_bytes(self)
        requires
            vstd::utf8::is_ascii_chars(self.value@),
        ensures
            self.byte_len() == self.value@.len(),
    {
        vstd::utf8::is_ascii_chars_encode_utf8(self.value@);
    }

    /// An empty field.
    pub fn new() -> (r: LineEdit)
        ensures
            r.value@.len() == 0,
            r.cursor == 0,
            !r.password,
            r.wf(),
    {
        LineEdit { value: String::new(), cursor: 0, password: false }
    }

    /// Replaces the text and puts the cursor behind it: at the number of
    /// bytes of the text, which for ASCII is the number of its characters.
    pub fn set(&mut self, s: &str)
        ensures
            final(self).value@ == s@,
            final(self).cursor == s.spec_bytes().len(),
            final(self).password == old(self).password,
            vstd::utf8::is_ascii_chars(s@) ==> final(self).wf() && final(self).cursor == s@.len(),
    {
        self.value = s.to_owned();
        self.cursor = s.as_bytes().len();
        proof {
            if vstd::utf8::is_ascii_chars(s@) {
                vstd::utf8::is_ascii_chars_encode_utf8(s@);
            }
        }
    }

    /// Puts a character in at the cursor and moves the cursor behind it.
    pub fn push(&mut self, ch: char)
        requires
            old(self).wf(),
            old(self).cursor < usize::MAX,
        ensures
            final(self).value@ == old(self).value@.insert(old(self).cursor as int, ch),
            final(self).cursor == old(self).cursor + 1,
            final(self).password == old(self).password,
            ch <= '\u{7f}' ==> final(self).wf(),
    {
        insert_char(&mut self.value, self.cursor, ch);
        self.cursor = self.cursor + 1;
    }

    /// Takes out the character before the cursor, if there is one, and
    /// moves the cursor back.
    pub fn backspace(&mut self)
        requires
            old(self).wf(),
        ensures
            final(self).wf(),
            final(self).password == old(self).password,
            old(self).cursor == 0 ==> final(self).value@ == old(self).value@ && final(self).cursor
                == 0,
            old(self).cursor > 0 ==> final(self).value@ == old(self).value@.remove(
                old(self).cursor - 1,
            ) && final(self).cursor == old(self).cursor - 1,
    {
        if self.cursor > 0 {
            self.cursor = self.cursor - 1;
            remove_char(&mut self.value, self.cursor);
        }
    }

    /// Takes out the character at the cursor, if there is one.
    pub fn delete(&mut self)
        requires
            old(self).wf(),
        ensures
            final(self).wf(),
            final(self).password == old(self).password,
            final(self).cursor == old(self).cursor,
            final(self).value@ == if old(self).cursor < old(self).value@.len() {
                old(self).value@.remove(old(self).cursor as int)
            } else {
                old(self).value@
            },
    {
        if self.cursor < ascii_len(&self.value) {
            remove_char(&mut self.value, self.cursor);
        }
    }

    /// Moves the cursor one character back, unless it is at the start.
    pub fn left(&mut self)
        ensures
            final(self).value == old(self).value,
            final(self).password == old(self).password,
            final(self).cursor == if old(self).cursor > 0 {
                (old(self).cursor - 1) as usize
            } else {
                0
            },
            old(self).wf() ==> final(self).wf(),
    {
        if self.cursor > 0 {
            self.cursor = self.cursor - 1;
        }
    }

    /// Moves the cursor one place on, unless it is at the end of the text:
    /// at the number of its bytes, which for ASCII is the number of its
    /// characters.
    pub fn right(&mut self)
        ensures
            final(self).value == old(self).value,
            final(self).password == old(self).password,
            final(self).cursor == if old(self).cursor < old(self).byte_len() {
                (old(self).cursor + 1) as usize
            } else {
                old(self).cursor
            },
            old(self).wf() ==> final(self).wf(),
    {
        proof {
            if vstd::utf8::is_ascii_chars(self.value@) {
                vstd::utf8::is_ascii_chars_encode_utf8(self.value@);
            }
        }
        if self.cursor < self.value.as_str().as_bytes().len() {
            self.cursor = self.cursor + 1;
        }
    }

    /// Empties the field.
    pub fn clear(&mut self)
        ensures
            final(self).value@.len() == 0,
            final(self).cursor == 0,
            final(self).password == old(self).password,
            final(self).wf(),
    {
        self.value = String::new();
        self.cursor = 0;
    }

    /// What the field shows: its text, or for a password one star for each
    /// byte of it, which for ASCII is one for each character.
    pub fn rendered(&self) -> (r: String)
        ensures
            r@ == self.rendered_spec(),
    {
        if self.password {
            let n: usize = self.value.as_str().as_bytes().len();
            let mut stars = String::new();
            let mut i: usize = 0;
            while i < n
                invariant
                    i <= n,
                    stars@ == Seq::new(i as nat, |k: int| '*'),
                decreases n - i,
            {
                push_char(&mut stars, '*');
                i = i + 1;
                proof {
                    assert(stars@ =~= Seq::new(i as nat, |k: int| '*'));
                }
            }
            stars
        } else {
            self.value.clone()
        }
    }
}

impl Default for LineEdit {
    fn default() -> (r: Self)
        ensures
            r.value@.len() == 0,
            r.cursor == 0,
            !r.password,
    {
        LineEdit::new()
    }
}

} // verus!
