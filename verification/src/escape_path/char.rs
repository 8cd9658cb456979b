//! Escaping of a single character for use inside a file name.

use vstd::prelude::*;

verus! {

/// The lower-case hexadecimal digit that stands for `d`, for `0 <= d < 16`.
pub open spec fn hex_digit(d: int) -> char {
    seq!['0', '1', '2', '3', '4', '5', '6', '7', '8', '9', 'a', 'b', 'c', 'd', 'e', 'f'][d]
}

/// The hexadecimal numeral of `n` without leading zeros; `0` is written `0`.
pub open spec fn hex_digits(n: int) -> Seq<char>
    decreases n,
{
    if n < 16 {
        seq![hex_digit(n)]
    } else {
        hex_digits(n / 16).push(hex_digit(n % 16))
    }
}

/// The default escape of a character: tab, carriage return and line feed in
/// their letter notation, quotes and the backslash behind a backslash,
/// printable ASCII unchanged, and everything else as `\u{..}` with the code
/// point in hexadecimal.
pub open spec fn escape_default(c: char) -> Seq<char> {
    if c == '\t' {
        seq!['\\', 't']
    } else if c == '\r' {
        seq!['\\', 'r']
    } else if c == '\n' {
        seq!['\\', 'n']
    } else if c == '\\' || c == '\'' || c == '"' {
        seq!['\\', c]
    } else if 0x20 <= c as u32 <= 0x7e {
        seq![c]
    } else {
        seq!['\\', 'u', '{'] + hex_digits(c as u32 as int) + seq!['}']
    }
}

/// The character that takes the place of the path separator.
pub const DIVISION_SLASH: char = '\u{2215}';

/// The escape of a character inside a file name: the path separator becomes
/// the division slash, every other character takes its default escape.
pub open spec fn escape_char(c: char) -> Seq<char> {
    if c == '/' {
        seq![DIVISION_SLASH]
    } else {
        escape_default(c)
    }
}

fn hex_digit_of(d: u32) -> (c: char)
    requires
        d < 16,
    ensures
        c == hex_digit(d as int),
{
    match d {
        0 => '0',
        1 => '1',
        2 => '2',
        3 => '3',
        4 => '4',
        5 => '5',
        6 => '6',
        7 => '7',
        8 => '8',
        9 => '9',
        10 => 'a',
        11 => 'b',
        12 => 'c',
        13 => 'd',
        14 => 'e',
        _ => 'f',
    }
}

/// Appends the hexadecimal numeral of `n` to `out`.
fn push_hex_digits(out: &mut Vec<char>, n: u32)
    ensures
        final(out)@ == old(out)@ + hex_digits(n as int),
    decreases n,
{
    if n >= 16 {
        push_hex_digits(out, n / 16);
    }
    out.push(hex_digit_of(n % 16));
}

/// The default escape of `c`, character by character.
fn default_escape(c: char) -> (out: Vec<char>)
    ensures
        out@ == escape_default(c),
{
    let mut out: Vec<char> = Vec::new();
    if c == '\t' {
        out.push('\\');
        out.push('t');
    } else if c == '\r' {
        out.push('\\');
        out.push('r');
    } else if c == '\n' {
        out.push('\\');
        out.push('n');
    } else if c == '\\' || c == '\'' || c == '"' {
        out.push('\\');
        out.push(c);
    } else if 0x20 <= c as u32 && c as u32 <= 0x7e {
        out.push(c);
    } else {
        out.push('\\');
        out.push('u');
        out.push('{');
        push_hex_digits(&mut out, c as u32);
        out.push('}');
    }
    out
}

/// What is left of the default escape of one character.
#[derive(Debug, Clone)]
struct EscapeDefault {
    chars: Vec<char>,
    next: usize,
}

impl EscapeDefault {
    spec fn rest(&self) -> Seq<char> {
        if self.next <= self.chars.len() {
            self.chars@.skip(self.next as int)
        } else {
            Seq::empty()
        }
    }
}

#[derive(Debug, Clone)]
enum EscapePathState {
    Done,
    Char(char),
    Default(EscapeDefault),
}

/// An iterator over the characters that one character is escaped to.
///
/// Its view is the sequence of characters that are still to come.
#[derive(Debug, Clone)]
pub struct EscapePath {
    state: EscapePathState,
}

impl View for EscapePath {
    type V = Seq<char>;

    closed spec fn view(&self) -> Seq<char> {
        match self.state {
            EscapePathState::Done => Seq::empty(),
            EscapePathState::Char(c) => seq![c],
            EscapePathState::Default(escape) => escape.rest(),
        }
    }
}

impl EscapePath {
    /// Hands out the next character, if one is left.
    pub fn next(&mut self) -> (item: Option<char>)
        ensures
            old(self)@.len() == 0 ==> item is None && final(self)@ == old(self)@,
            old(self)@.len() > 0 ==> item == Some(old(self)@[0]) && final(self)@ == old(
                self,
            )@.drop_first(),
    {
        match &mut self.state {
            EscapePathState::Done => None,
            EscapePathState::Char(c) => {
                let c = *c;
                self.state = EscapePathState::Done;
                Some(c)
            },
            EscapePathState::Default(escape) => {
                if escape.next < escape.chars.len() {
                    let c = escape.chars[escape.next];
                    escape.next = escape.next + 1;
                    Some(c)
                } else {
                    None
                }
            },
        }
    }

    /// The bounds on the number of characters that are left: both are that
    /// number.
    pub fn size_hint(&self) -> (hint: (usize, Option<usize>))
        ensures
            hint.0 == self@.len(),
            hint.1 == Some(hint.0),
    {
        let n = self.len();
        (n, Some(n))
    }

    /// Uses the iterator up and tells how many characters were left.
    pub fn count(self) -> (n: usize)
        ensures
            n == self@.len(),
    {
        self.len()
    }

    /// Skips `n` characters and hands out the one after them. Where fewer
    /// than `n + 1` characters are left, all of them are skipped and there is
    /// none to hand out.
    pub fn nth(&mut self, n: usize) -> (item: Option<char>)
        ensures
            n < old(self)@.len() ==> item == Some(old(self)@[n as int]) && final(self)@ == old(
                self,
            )@.skip(n + 1),
            n >= old(self)@.len() ==> item is None && final(self)@ == Seq::<char>::empty(),
    {
        match &mut self.state {
            EscapePathState::Done => None,
            EscapePathState::Char(c) => {
                let c = *c;
                self.state = EscapePathState::Done;
                if n == 0 {
                    Some(c)
                } else {
                    None
                }
            },
            EscapePathState::Default(escape) => {
                let len = escape.chars.len();
                if escape.next <= len && n < len - escape.next {
                    let c = escape.chars[escape.next + n];
                    escape.next = escape.next + n + 1;
                    Some(c)
                } else {
                    escape.next = len;
                    None
                }
            },
        }
    }

    /// Uses the iterator up and hands out the last character that was left.
    pub fn last(self) -> (item: Option<char>)
        ensures
            self@.len() == 0 ==> item is None,
            self@.len() > 0 ==> item == Some(self@.last()),
    {
        match self.state {
            EscapePathState::Done => None,
            EscapePathState::Char(c) => Some(c),
            EscapePathState::Default(escape) => {
                let len = escape.chars.len();
                if escape.next < len {
                    Some(escape.chars[len - 1])
                } else {
                    None
                }
            },
        }
    }

    /// Appends the characters that are left to `out`, without using them up.
    pub fn append_to(&self, out: &mut String)
        ensures
            final(out)@ == old(out)@ + self@,
    {
        match &self.state {
            EscapePathState::Done => {
                assert(out@ == old(out)@ + self@);
            },
            EscapePathState::Char(c) => {
                out.push(*c);
                assert(out@ == old(out)@ + self@);
            },
            EscapePathState::Default(escape) => {
                if escape.next <= escape.chars.len() {
                    let mut i: usize = escape.next;
                    while i < escape.chars.len()
                        invariant
                            escape.next <= i <= escape.chars.len(),
                            out@ == old(out)@ + escape.chars@.subrange(
                                escape.next as int,
                                i as int,
                            ),
                        decreases escape.chars.len() - i,
                    {
                        out.push(escape.chars[i]);
                        i = i + 1;
                        assert(escape.chars@.subrange(escape.next as int, i as int)
                            == escape.chars@.subrange(escape.next as int, i - 1).push(
                            escape.chars@[i - 1],
                        ));
                    }
                    assert(self@ == escape.chars@.subrange(escape.next as int, i as int));
                } else {
                    assert(out@ == old(out)@ + self@);
                }
            },
        }
    }

    /// The characters that are left, as a string.
    pub fn to_string(&self) -> (s: String)
        ensures
            s@ == self@,
    {
        let mut s = String::new();
        self.append_to(&mut s);
        s
    }

    /// The number of characters that are left.
    pub fn len(&self) -> (n: usize)
        ensures
            n == self@.len(),
    {
        match &self.state {
            EscapePathState::Done => 0,
            EscapePathState::Char(_) => 1,
            EscapePathState::Default(escape) => {
                if escape.next <= escape.chars.len() {
                    escape.chars.len() - escape.next
                } else {
                    0
                }
            },
        }
    }
}

/// Characters that can be escaped for use inside a file name.
pub trait CharExt {
    /// The character that is escaped.
    spec fn as_char(self) -> char;

    /// An iterator over the escape of the character.
    fn escape_path(self) -> (escaped: EscapePath)
        ensures
            escaped@ == escape_char(self.as_char()),
    ;
}

impl CharExt for char {
    open spec fn as_char(self) -> char {
        self
    }

    fn escape_path(self) -> (escaped: EscapePath) {
        let state = match self {
            '/' => EscapePathState::Char(DIVISION_SLASH),
            _ => EscapePathState::Default(EscapeDefault { chars: default_escape(self), next: 0 }),
        };
        EscapePath { state }
    }
}

/// The escape of a character holds no path separator.
pub proof fn escape_char_holds_no_separator(c: char)
    ensures
        forall|i: int| 0 <= i < escape_char(c).len() ==> escape_char(c)[i] != '/',
{
    hex_digits_are_digits(c as u32 as int);
    let digits = hex_digits(c as u32 as int);
    assert forall|i: int| 0 <= i < escape_char(c).len() implies escape_char(c)[i] != '/' by {
        if escape_char(c).len() >= 3 && 3 <= i < 3 + digits.len() {
            assert(escape_char(c)[i] == digits[i - 3]);
            assert(is_hex_digit(digits[i - 3]));
        }
    }
}

/// Whether `c` is a lower-case hexadecimal digit.
pub open spec fn is_hex_digit(c: char) -> bool {
    '0' <= c <= '9' || 'a' <= c <= 'f'
}

/// A hexadecimal numeral has at least one digit, two where the number is
/// sixteen or more, and it holds nothing but digits.
proof fn hex_digits_are_digits(n: int)
    requires
        n >= 0,
    ensures
        hex_digits(n).len() >= 1,
        n >= 16 ==> hex_digits(n).len() >= 2,
        forall|i: int| 0 <= i < hex_digits(n).len() ==> is_hex_digit(#[trigger] hex_digits(n)[i]),
    decreases n,
{
    if n >= 16 {
        hex_digits_are_digits(n / 16);
        assert(is_hex_digit(hex_digit(n % 16)));
        assert forall|i: int| 0 <= i < hex_digits(n).len() implies is_hex_digit(
            #[trigger] hex_digits(n)[i],
        ) by {
            if i < hex_digits(n / 16).len() {
                assert(hex_digits(n)[i] == hex_digits(n / 16)[i]);
            } else {
                assert(hex_digits(n)[i] == hex_digit(n % 16));
            }
        }
    } else {
        assert(is_hex_digit(hex_digit(n)));
        assert(hex_digits(n)[0] == hex_digit(n));
    }
}

/// Two digits that are written alike are the same.
proof fn hex_digit_is_injective(a: int, b: int)
    requires
        0 <= a < 16,
        0 <= b < 16,
        hex_digit(a) == hex_digit(b),
    ensures
        a == b,
{
}

/// Two numbers that are written alike are the same.
proof fn hex_digits_are_injective(n: int, m: int)
    requires
        n >= 0,
        m >= 0,
        hex_digits(n) == hex_digits(m),
    ensures
        n == m,
    decreases n,
{
    hex_digits_are_digits(n);
    hex_digits_are_digits(m);
    if n < 16 {
        assert(hex_digits(n)[0] == hex_digit(n));
        assert(hex_digits(m)[0] == hex_digit(m));
        hex_digit_is_injective(n, m);
    } else {
        let high = hex_digits(n / 16);
        assert(hex_digits(m) == hex_digits(m / 16).push(hex_digit(m % 16)));
        assert(high == hex_digits(n).drop_last());
        assert(hex_digits(m / 16) == hex_digits(m).drop_last());
        assert(hex_digit(n % 16) == hex_digits(n).last());
        assert(hex_digit(m % 16) == hex_digits(m).last());
        hex_digits_are_injective(n / 16, m / 16);
        hex_digit_is_injective(n % 16, m % 16);
    }
}

/// A numeral ends where the closing brace stands: two numerals that are
/// each followed by a brace and agree as far as the shorter of the two texts
/// goes are the same numeral.
proof fn hex_digits_end_at_the_brace(n: int, m: int, x: Seq<char>, y: Seq<char>)
    requires
        n >= 0,
        m >= 0,
        hex_digits(n) + seq!['}'] + x == hex_digits(m) + seq!['}'] + y,
    ensures
        n == m,
{
    let left = hex_digits(n) + seq!['}'] + x;
    let right = hex_digits(m) + seq!['}'] + y;
    let ln = hex_digits(n).len() as int;
    let lm = hex_digits(m).len() as int;
    hex_digits_are_digits(n);
    hex_digits_are_digits(m);
    assert(left[ln] == '}');
    assert(right[lm] == '}');
    if ln < lm {
        assert(right[ln] == hex_digits(m)[ln]);
        assert(is_hex_digit(hex_digits(m)[ln]));
        assert(false);
    }
    if lm < ln {
        assert(left[lm] == hex_digits(n)[lm]);
        assert(is_hex_digit(hex_digits(n)[lm]));
        assert(false);
    }
    assert(hex_digits(n) == left.take(ln));
    assert(hex_digits(m) == right.take(lm));
    hex_digits_are_injective(n, m);
}

/// The escape of a character can be read back: where two texts begin with
/// the escapes of two characters and are the same text, the two characters
/// are the same.
pub proof fn escape_char_can_be_read_back(a: char, b: char, x: Seq<char>, y: Seq<char>)
    requires
        escape_char(a) + x == escape_char(b) + y,
    ensures
        a == b,
        x == y,
{
    let left = escape_char(a) + x;
    let right = escape_char(b) + y;
    escape_char_is_not_empty(a);
    escape_char_is_not_empty(b);
    assert(left[0] == escape_char(a)[0]);
    assert(right[0] == escape_char(b)[0]);
    if escape_char(a).len() >= 2 && escape_char(b).len() >= 2 {
        assert(left[1] == escape_char(a)[1]);
        assert(right[1] == escape_char(b)[1]);
        if escape_char(a).len() >= 3 && escape_char(b).len() >= 3 {
            let n = a as u32 as int;
            let m = b as u32 as int;
            assert(left.skip(3) == hex_digits(n) + seq!['}'] + x);
            assert(right.skip(3) == hex_digits(m) + seq!['}'] + y);
            hex_digits_end_at_the_brace(n, m, x, y);
        }
    }
    assert(a == b);
    assert(x == left.skip(escape_char(a).len() as int));
    assert(y == right.skip(escape_char(b).len() as int));
}

/// Every character is escaped to at least one character.
pub proof fn escape_char_is_not_empty(c: char)
    ensures
        escape_char(c).len() >= 1,
{
}

} // verus!
