//! Escaping of text for use inside a file name.
//!
//! A file name must not hold a path separator. The escape therefore turns
//! every `/` into the division slash, which looks alike and is an ordinary
//! character to a file system, and gives every other character its default
//! escape.

use self::char::{escape_char, CharExt};
use crate::text::chars_of;
use vstd::prelude::*;

pub mod char;

verus! {

/// The escape of a text: the escapes of its characters, in order.
pub open spec fn escape_text(text: Seq<char>) -> Seq<char>
    decreases text.len(),
{
    if text.len() == 0 {
        Seq::empty()
    } else {
        escape_char(text[0]) + escape_text(text.drop_first())
    }
}

/// The escape of a text holds no path separator: a file name made of it
/// names no directory.
pub proof fn escape_text_holds_no_separator(text: Seq<char>)
    ensures
        forall|i: int| 0 <= i < escape_text(text).len() ==> escape_text(text)[i] != '/',
    decreases text.len(),
{
    if text.len() > 0 {
        let head = escape_char(text[0]);
        let tail = escape_text(text.drop_first());
        self::char::escape_char_holds_no_separator(text[0]);
        escape_text_holds_no_separator(text.drop_first());
        assert forall|i: int| 0 <= i < escape_text(text).len() implies escape_text(text)[i]
            != '/' by {
            if i < head.len() {
                assert(escape_text(text)[i] == head[i]);
            } else {
                assert(escape_text(text)[i] == tail[i - head.len()]);
            }
        }
    }
}

/// The escape of a text can be read back: two texts with the same escape
/// are the same text. So two file names that differ only in what was escaped
/// never fall together.
pub proof fn escape_text_can_be_read_back(a: Seq<char>, b: Seq<char>)
    requires
        escape_text(a) == escape_text(b),
    ensures
        a == b,
    decreases a.len(),
{
    if a.len() == 0 {
        if b.len() > 0 {
            self::char::escape_char_is_not_empty(b[0]);
        }
    } else {
        self::char::escape_char_is_not_empty(a[0]);
        self::char::escape_char_can_be_read_back(
            a[0],
            b[0],
            escape_text(a.drop_first()),
            escape_text(b.drop_first()),
        );
        escape_text_can_be_read_back(a.drop_first(), b.drop_first());
        assert(a == seq![a[0]] + a.drop_first());
        assert(b == seq![b[0]] + b.drop_first());
    }
}

/// Texts that can be escaped for use inside a file name.
pub trait EscapePathExt {
    /// The text that is escaped.
    spec fn text(&self) -> Seq<char>;

    /// An iterator over the escape of the text.
    fn escape_path(&self) -> (escaped: EscapePath)
        ensures
            escaped@ == escape_text(self.text()),
            escaped.front() == Seq::<char>::empty(),
            escaped.pending() == self.text(),
    ;
}

impl EscapePathExt for String {
    open spec fn text(&self) -> Seq<char> {
        self@
    }

    fn escape_path(&self) -> (escaped: EscapePath) {
        EscapePath::new(chars_of(self.as_str()))
    }
}

impl EscapePathExt for str {
    open spec fn text(&self) -> Seq<char> {
        self@
    }

    fn escape_path(&self) -> (escaped: EscapePath) {
        EscapePath::new(chars_of(self))
    }
}

impl<T> EscapePathExt for &T where T: EscapePathExt {
    open spec fn text(&self) -> Seq<char> {
        (**self).text()
    }

    fn escape_path(&self) -> (escaped: EscapePath) {
        (*self).escape_path()
    }
}

/// An iterator over the escape of a text.
///
/// Its view is the sequence of characters that are still to come: what is
/// left of the escape of the character at hand, then the escape of the text
/// behind it.
#[derive(Debug, Clone)]
pub struct EscapePath {
    source: Vec<char>,
    position: usize,
    inner: Option<char::EscapePath>,
}

impl View for EscapePath {
    type V = Seq<char>;

    closed spec fn view(&self) -> Seq<char> {
        self.front() + escape_text(self.pending())
    }
}

impl EscapePath {
    /// What is left of the escape of the character at hand.
    pub closed spec fn front(&self) -> Seq<char> {
        match self.inner {
            Some(inner) => inner@,
            None => Seq::empty(),
        }
    }

    /// The part of the text whose escape has not begun.
    pub closed spec fn pending(&self) -> Seq<char> {
        if self.position <= self.source.len() {
            self.source@.skip(self.position as int)
        } else {
            Seq::empty()
        }
    }

    /// The view is the front followed by the escape of the pending text.
    pub proof fn view_is_front_then_pending(&self)
        ensures
            self@ == self.front() + escape_text(self.pending()),
    {
    }

    fn new(source: Vec<char>) -> (escaped: EscapePath)
        ensures
            escaped@ == escape_text(source@),
            escaped.front() == Seq::<char>::empty(),
            escaped.pending() == source@,
    {
        assert(source@.skip(0) == source@);
        assert(Seq::<char>::empty() + escape_text(source@) == escape_text(source@));
        EscapePath { source, position: 0, inner: None }
    }

    /// Hands out the next character, if one is left.
    pub fn next(&mut self) -> (item: Option<char>)
        ensures
            old(self)@.len() == 0 ==> item is None && final(self)@ == old(self)@,
            old(self)@.len() > 0 ==> item == Some(old(self)@[0]) && final(self)@ == old(
                self,
            )@.drop_first(),
    {
        let item = match &mut self.inner {
            Some(inner) => inner.next(),
            None => None,
        };
        if item.is_some() {
            return item;
        }
        if self.position < self.source.len() {
            let c = self.source[self.position];
            proof {
                self::char::escape_char_is_not_empty(c);
                assert(self.pending().drop_first() == self.source@.skip(self.position + 1));
            }
            let mut inner = escape_path(c);
            let item = inner.next();
            self.inner = Some(inner);
            self.position = self.position + 1;
            item
        } else {
            None
        }
    }

    /// The bounds on the number of characters that are left. The lower bound
    /// is what is left of the character at hand. There is an upper bound only
    /// once no text is pending, and it is then the same number.
    pub fn size_hint(&self) -> (hint: (usize, Option<usize>))
        ensures
            hint.0 == self.front().len(),
            hint.1 == if self.pending().len() == 0 {
                Some(hint.0)
            } else {
                None
            },
    {
        let low = match &self.inner {
            Some(inner) => inner.len(),
            None => 0,
        };
        if self.position < self.source.len() {
            (low, None)
        } else {
            (low, Some(low))
        }
    }

    /// Appends the characters that are left to `out`, without using them up.
    pub fn append_to(&self, out: &mut String)
        ensures
            final(out)@ == old(out)@ + self@,
    {
        if let Some(inner) = &self.inner {
            inner.append_to(out);
        }
        let mut i: usize = self.position;
        while i < self.source.len()
            invariant
                self.position <= i,
                self.position <= self.source.len() ==> i <= self.source.len(),
                out@ + escape_text(
                    if i <= self.source.len() {
                        self.source@.skip(i as int)
                    } else {
                        Seq::empty()
                    },
                ) == old(out)@ + self@,
            decreases self.source.len() - i,
        {
            let ghost rest = self.source@.skip(i as int);
            assert(rest.drop_first() == self.source@.skip(i + 1));
            escape_path(self.source[i]).append_to(out);
            i = i + 1;
        }
    }

    /// The characters that are left, as a string.
    pub fn to_string(&self) -> (s: String)
        ensures
            s@ == self@,
    {
        let mut s = String::new();
        self.append_to(&mut s);
        s
    }
}

/// An iterator over the escape of one character.
pub fn escape_path(c: char) -> (escaped: char::EscapePath)
    ensures
        escaped@ == escape_char(c),
{
    c.escape_path()
}

} // verus!
