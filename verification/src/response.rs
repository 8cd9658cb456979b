//! What a worker reads off the headers of a response, and where the body
//! goes.

use crate::error::Error;
use crate::text::{chars_of, same_text};
use vstd::prelude::*;
use vstd::string::StringExecFns;

verus! {

/// The value of a decimal digit.
pub open spec fn digit_value(c: char) -> Option<nat> {
    if '0' <= c <= '9' {
        Some((c as nat - '0' as nat) as nat)
    } else {
        None
    }
}

/// The number that a text of decimal digits stands for; the empty text
/// stands for zero. A text that holds anything but digits stands for none.
pub open spec fn digits_value(digits: Seq<char>) -> Option<nat>
    decreases digits.len(),
{
    if digits.len() == 0 {
        Some(0)
    } else {
        match (digits_value(digits.drop_last()), digit_value(digits.last())) {
            (Some(value), Some(digit)) => Some(10 * value + digit),
            _ => None,
        }
    }
}

/// The number that a text stands for: one or more decimal digits, with at
/// most a `+` in front of them.
pub open spec fn number_value(text: Seq<char>) -> Option<nat> {
    let digits = if text.len() > 0 && text[0] == '+' {
        text.drop_first()
    } else {
        text
    };
    if digits.len() == 0 {
        None
    } else {
        digits_value(digits)
    }
}

/// What the content length header gives: no length where there is no
/// header, the length where the header holds a number that a `u64` can hold,
/// and an error that carries the header otherwise.
pub open spec fn content_length_of(header: Option<Seq<char>>) -> Result<Option<u64>, Seq<char>> {
    match header {
        None => Ok(None),
        Some(text) => match number_value(text) {
            Some(value) => if value <= u64::MAX {
                Ok(Some(value as u64))
            } else {
                Err(text)
            },
            None => Err(text),
        },
    }
}

/// With more digits the number does not get smaller.
proof fn digits_value_grows(digits: Seq<char>, n: int)
    requires
        0 <= n <= digits.len(),
        digits_value(digits) is Some,
    ensures
        digits_value(digits.take(n)) is Some,
        digits_value(digits.take(n))->0 <= digits_value(digits)->0,
    decreases digits.len(),
{
    if n == digits.len() {
        assert(digits.take(n) == digits);
    } else {
        assert(digits.drop_last().take(n) == digits.take(n));
        digits_value_grows(digits.drop_last(), n);
    }
}

/// Where a shorter text of digits holds something else than digits, so
/// does the longer one.
proof fn digits_value_fails(digits: Seq<char>, n: int)
    requires
        0 <= n <= digits.len(),
        digits_value(digits.take(n)) is None,
    ensures
        digits_value(digits) is None,
    decreases digits.len(),
{
    if n == digits.len() {
        assert(digits.take(n) == digits);
    } else {
        assert(digits.drop_last().take(n) == digits.take(n));
        digits_value_fails(digits.drop_last(), n);
    }
}

/// The value of the digit `c`, if it is one.
fn digit_of(c: char) -> (digit: Option<u64>)
    ensures
        digit is Some <==> digit_value(c) is Some,
        digit matches Some(d) ==> d == digit_value(c)->0 && d <= 9,
{
    if '0' <= c && c <= '9' {
        Some((c as u32 - '0' as u32) as u64)
    } else {
        None
    }
}

/// The length that the content length header announces.
pub fn content_length(header: Option<&str>) -> (length: Result<Option<u64>, Error>)
    ensures
        match content_length_of(
            match header {
                Some(text) => Some(text@),
                None => None,
            },
        ) {
            Ok(value) => length == Ok::<Option<u64>, Error>(value),
            Err(text) => length matches Err(Error::ParseContentLength { value }) && value@ == text,
        },
{
    let source = match header {
        Some(source) => source,
        None => {
            return Ok(None);
        },
    };
    let text = chars_of(source);
    let start: usize = if text.len() > 0 && text[0] == '+' {
        1
    } else {
        0
    };
    let ghost digits = text@.skip(start as int);
    assert(digits == if text@.len() > 0 && text@[0] == '+' {
        text@.drop_first()
    } else {
        text@
    });
    if start == text.len() {
        return Err(Error::ParseContentLength { value: source.to_owned() });
    }
    let mut value: u64 = 0;
    let mut i: usize = start;
    assert(digits.take(0) == Seq::<char>::empty());
    while i < text.len()
        invariant
            source@ == text@,
            header == Some(source),
            digits == text@.skip(start as int),
            digits.len() > 0,
            digits == if text@.len() > 0 && text@[0] == '+' {
                text@.drop_first()
            } else {
                text@
            },
            start <= i <= text.len(),
            digits_value(digits.take(i - start)) == Some(value as nat),
        decreases text.len() - i,
    {
        let ghost shorter = digits.take(i - start);
        let ghost longer = digits.take(i - start + 1);
        proof {
            assert(longer.drop_last() == shorter);
            assert(longer.last() == text@[i as int]);
        }
        let next = match digit_of(text[i]) {
            Some(digit) => match value.checked_mul(10) {
                Some(tenfold) => tenfold.checked_add(digit),
                None => None,
            },
            None => None,
        };
        match next {
            Some(next) => {
                value = next;
            },
            None => {
                proof {
                    if digits_value(longer) is Some {
                        assert(digits_value(longer)->0 == 10 * value + digit_value(
                            text@[i as int],
                        )->0);
                        assert(digits_value(longer)->0 > u64::MAX);
                        if digits_value(digits) is Some {
                            digits_value_grows(digits, i - start + 1);
                        }
                    } else {
                        digits_value_fails(digits, i - start + 1);
                    }
                    assert(number_value(text@) == digits_value(digits));
                }
                return Err(Error::ParseContentLength { value: source.to_owned() });
            },
        }
        i = i + 1;
    }
    assert(digits.take(i - start) == digits);
    Ok(Some(value))
}

/// Whether a response with the content type `content_type` is a page whose
/// references are followed: only one of exactly the type `text/html` is.
pub fn is_html(content_type: Option<&str>) -> (html: bool)
    ensures
        html == (content_type matches Some(text) && text@ == "text/html"@),
{
    match content_type {
        Some(text) => same_text(text, "text/html"),
        None => false,
    }
}

/// The path of the file that takes the body where the mapped path `path`
/// is taken by a directory: the index file in that directory.
pub fn directory_index(path: &str) -> (file: String)
    ensures
        file@ == path@ + "/index.html"@,
{
    let mut file = path.to_owned();
    file.append("/index.html");
    file
}

} // verus!
