//! Reversal of C-style quoting, as applied to paths that hold unusual bytes.
use vstd::prelude::*;

verus! {

/// The double quote that opens and closes a quoted string.
pub const QUOTE: u8 = 0x22;

/// The backslash that starts an escape.
pub const BACKSLASH: u8 = 0x5c;

/// The letter `a`, which escapes the bell byte.
pub const LETTER_A: u8 = 0x61;

/// The letter `b`, which escapes backspace.
pub const LETTER_B: u8 = 0x62;

/// The letter `f`, which escapes form feed.
pub const LETTER_F: u8 = 0x66;

/// The letter `n`, which escapes line feed.
pub const LETTER_N: u8 = 0x6e;

/// The letter `r`, which escapes carriage return.
pub const LETTER_R: u8 = 0x72;

/// The letter `t`, which escapes the horizontal tab.
pub const LETTER_T: u8 = 0x74;

/// The letter `v`, which escapes the vertical tab.
pub const LETTER_V: u8 = 0x76;

/// The digit `0`.
pub const DIGIT_0: u8 = 0x30;

/// The digit `3`, the highest that may lead an octal escape.
pub const DIGIT_3: u8 = 0x33;

/// The digit `7`, the highest octal digit.
pub const DIGIT_7: u8 = 0x37;

/// The byte that a single-letter escape stands for, if `letter` is one.
pub open spec fn simple_escape(letter: u8) -> Option<u8> {
    if letter == LETTER_A {
        Some(7u8)
    } else if letter == LETTER_B {
        Some(8u8)
    } else if letter == LETTER_T {
        Some(9u8)
    } else if letter == LETTER_N {
        Some(10u8)
    } else if letter == LETTER_V {
        Some(11u8)
    } else if letter == LETTER_F {
        Some(12u8)
    } else if letter == LETTER_R {
        Some(13u8)
    } else if letter == QUOTE {
        Some(QUOTE)
    } else if letter == BACKSLASH {
        Some(BACKSLASH)
    } else {
        None
    }
}

/// Whether `digit` is an ASCII octal digit.
pub open spec fn is_octal_digit(digit: u8) -> bool {
    DIGIT_0 <= digit <= DIGIT_7
}

/// Whether three bytes form an octal escape that fits into one byte.
pub open spec fn is_octal_escape(high: u8, mid: u8, low: u8) -> bool {
    DIGIT_0 <= high <= DIGIT_3 && is_octal_digit(mid) && is_octal_digit(low)
}

/// The byte denoted by three octal digits.
pub open spec fn octal_value(high: u8, mid: u8, low: u8) -> u8 {
    ((high - DIGIT_0) * 64 + (mid - DIGIT_0) * 8 + (low - DIGIT_0)) as u8
}

/// Puts `byte` in front of a decoded remainder, if there is one.
pub open spec fn prepend(byte: u8, rest: Option<Seq<u8>>) -> Option<Seq<u8>> {
    match rest {
        Some(bytes) => Some(seq![byte] + bytes),
        None => None,
    }
}

/// What follows an opening quote, decoded up to the closing quote.
///
/// The closing quote has to be the last byte. `None` stands for malformed
/// input: a missing closing quote, bytes after it, a backslash at the end,
/// an unknown escape letter, or an octal escape that is cut short or
/// exceeds `\377`.
pub open spec fn unquoted_body(body: Seq<u8>) -> Option<Seq<u8>>
    decreases body.len(),
{
    if body.len() == 0 {
        None
    } else if body[0] == QUOTE {
        if body.len() == 1 {
            Some(Seq::empty())
        } else {
            None
        }
    } else if body[0] == BACKSLASH {
        if body.len() < 2 {
            None
        } else if simple_escape(body[1]) is Some {
            prepend(simple_escape(body[1])->0, unquoted_body(body.skip(2)))
        } else if body.len() >= 4 && is_octal_escape(body[1], body[2], body[3]) {
            prepend(octal_value(body[1], body[2], body[3]), unquoted_body(body.skip(4)))
        } else {
            None
        }
    } else {
        prepend(body[0], unquoted_body(body.skip(1)))
    }
}

/// The bytes a quoted `line` stands for, or `None` if it is not a well-formed
/// quoted string. A well-formed one starts with a double quote, which is
/// followed by what [`unquoted_body`] accepts.
pub open spec fn unquoted(line: Seq<u8>) -> Option<Seq<u8>> {
    if line.len() > 0 && line[0] == QUOTE {
        unquoted_body(line.skip(1))
    } else {
        None
    }
}

/// `decoded` followed by what the rest of the body decodes to.
pub open spec fn resume(decoded: Seq<u8>, rest: Option<Seq<u8>>) -> Option<Seq<u8>> {
    match rest {
        Some(bytes) => Some(decoded + bytes),
        None => None,
    }
}

fn escape_byte(letter: u8) -> (byte: Option<u8>)
    ensures
        byte == simple_escape(letter),
{
    if letter == LETTER_A {
        Some(7u8)
    } else if letter == LETTER_B {
        Some(8u8)
    } else if letter == LETTER_T {
        Some(9u8)
    } else if letter == LETTER_N {
        Some(10u8)
    } else if letter == LETTER_V {
        Some(11u8)
    } else if letter == LETTER_F {
        Some(12u8)
    } else if letter == LETTER_R {
        Some(13u8)
    } else if letter == QUOTE {
        Some(QUOTE)
    } else if letter == BACKSLASH {
        Some(BACKSLASH)
    } else {
        None
    }
}

/// Undo the quoting of `line`, which is expected to start with a double quote.
///
/// Returns the bytes the quoted string stands for, or `None` if `line` is not
/// a well-formed quoted string.
pub fn undo(line: &[u8]) -> (decoded: Option<Vec<u8>>)
    ensures
        unquoted(line@) is Some <==> decoded is Some,
        decoded matches Some(bytes) ==> unquoted(line@) == Some(bytes@),
{
    if line.len() == 0 || line[0] != QUOTE {
        return None;
    }
    let mut out: Vec<u8> = Vec::new();
    let mut at: usize = 1;
    loop
        invariant
            1 <= at <= line.len(),
            line@[0] == QUOTE,
            unquoted_body(line@.skip(1)) == resume(out@, unquoted_body(line@.skip(at as int))),
        decreases line.len() - at,
    {
        let ghost rest = line@.skip(at as int);
        let ghost before = out@;
        if at == line.len() {
            return None;
        }
        let byte = line[at];
        assert(rest[0] == byte);
        if byte == QUOTE {
            if at + 1 == line.len() {
                assert(rest.len() == 1);
                assert(before + Seq::<u8>::empty() =~= before);
                return Some(out);
            }
            return None;
        } else if byte == BACKSLASH {
            if at + 1 == line.len() {
                return None;
            }
            let letter = line[at + 1];
            assert(rest[1] == letter);
            match escape_byte(letter) {
                Some(value) => {
                    out.push(value);
                    assert(rest.skip(2) =~= line@.skip(at + 2));
                    assert(forall|tail: Seq<u8>| before + (seq![value] + tail) =~= before.push(value) + tail);
                    at = at + 2;
                },
                None => {
                    if line.len() - at < 4 {
                        return None;
                    }
                    let high = line[at + 1];
                    let mid = line[at + 2];
                    let low = line[at + 3];
                    assert(rest[2] == mid && rest[3] == low);
                    if DIGIT_0 <= high && high <= DIGIT_3 && DIGIT_0 <= mid && mid <= DIGIT_7 && DIGIT_0 <= low
                        && low <= DIGIT_7 {
                        let value: u8 = (high - DIGIT_0) * 64 + (mid - DIGIT_0) * 8 + (low - DIGIT_0);
                        out.push(value);
                        assert(rest.skip(4) =~= line@.skip(at + 4));
                        assert(forall|tail: Seq<u8>| before + (seq![value] + tail) =~= before.push(value) + tail);
                        at = at + 4;
                    } else {
                        return None;
                    }
                },
            }
        } else {
            out.push(byte);
            assert(rest.skip(1) =~= line@.skip(at + 1));
            assert(forall|tail: Seq<u8>| before + (seq![byte] + tail) =~= before.push(byte) + tail);
            at = at + 1;
        }
    }
}

} // verus!
