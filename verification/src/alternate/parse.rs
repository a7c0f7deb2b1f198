//! The format of an `info/alternates` file: one path per line.
use vstd::prelude::*;
use vstd::slice::slice_subrange;
use vstd::slice::slice_to_vec;

use crate::alternate::unquote::QUOTE;
use crate::alternate::unquote;

verus! {

/// The byte that ends a line.
pub const LINE_FEED: u8 = 0x0a;

/// The byte that may precede a line feed and is not part of the path then.
pub const CARRIAGE_RETURN: u8 = 0x0d;

/// The byte that starts a comment line.
pub const HASH: u8 = 0x23;

/// The failure to make sense of an alternates file.
#[derive(Debug)]
pub enum ParseError {
    /// A line started with a double quote but is not a well-formed quoted string.
    Unquote {
        /// The offending line, without its line ending.
        line: Vec<u8>,
    },
}

/// The views of a sequence of byte strings.
pub open spec fn byte_strings(strings: Seq<Vec<u8>>) -> Seq<Seq<u8>> {
    Seq::new(strings.len(), |i: int| strings[i]@)
}

/// The number of bytes before the first line feed of `input`, or its length if
/// it has none.
pub open spec fn line_end(input: Seq<u8>) -> nat
    decreases input.len(),
{
    if input.len() == 0 || input[0] == LINE_FEED {
        0
    } else {
        1 + line_end(input.skip(1))
    }
}

/// `input` split at each line feed. What follows the last line feed is a line
/// too, so there is always at least one line.
pub open spec fn lines(input: Seq<u8>) -> Seq<Seq<u8>>
    decreases input.len(),
{
    let end = line_end(input) as int;
    if end >= input.len() {
        seq![input]
    } else {
        seq![input.take(end)] + lines(input.skip(end + 1))
    }
}

/// `line` without a trailing carriage return.
pub open spec fn without_carriage_return(line: Seq<u8>) -> Seq<u8> {
    if line.len() > 0 && line.last() == CARRIAGE_RETURN {
        line.drop_last()
    } else {
        line
    }
}

/// What one line of an alternates file amounts to.
pub enum Line {
    /// An empty line or a comment.
    Skipped,
    /// A path, with quoting undone.
    Entry(Seq<u8>),
    /// A line that cannot be interpreted.
    Malformed,
}

/// The meaning of one `line`, given without its line feed.
///
/// A trailing carriage return is dropped first. Empty lines and those that
/// start with `#` are skipped, a line that starts with a double quote is a
/// quoted path, and every other line is a path as it stands.
pub open spec fn interpret(line: Seq<u8>) -> Line {
    let line = without_carriage_return(line);
    if line.len() == 0 || line[0] == HASH {
        Line::Skipped
    } else if line[0] == QUOTE {
        match unquote::unquoted(line) {
            Some(path) => Line::Entry(path),
            None => Line::Malformed,
        }
    } else {
        Line::Entry(line)
    }
}

/// The paths that `lines` hold, in order, or the first malformed line
/// (without its carriage return).
pub open spec fn entries_of_lines(lines: Seq<Seq<u8>>) -> Result<Seq<Seq<u8>>, Seq<u8>>
    decreases lines.len(),
{
    if lines.len() == 0 {
        Ok(Seq::empty())
    } else {
        match interpret(lines[0]) {
            Line::Malformed => Err(without_carriage_return(lines[0])),
            Line::Skipped => entries_of_lines(lines.skip(1)),
            Line::Entry(path) => match entries_of_lines(lines.skip(1)) {
                Ok(paths) => Ok(seq![path] + paths),
                Err(line) => Err(line),
            },
        }
    }
}

/// The paths that an alternates file with the given content lists, in file
/// order, or the first malformed line.
pub open spec fn entries(input: Seq<u8>) -> Result<Seq<Seq<u8>>, Seq<u8>> {
    entries_of_lines(lines(input))
}

/// `found` followed by the paths of the lines that are still to be read.
pub open spec fn resume(found: Seq<Seq<u8>>, rest: Result<Seq<Seq<u8>>, Seq<u8>>) -> Result<
    Seq<Seq<u8>>,
    Seq<u8>,
> {
    match rest {
        Ok(paths) => Ok(found + paths),
        Err(line) => Err(line),
    }
}

proof fn lemma_line_end_bound(input: Seq<u8>)
    ensures
        line_end(input) <= input.len(),
        line_end(input) < input.len() ==> input[line_end(input) as int] == LINE_FEED,
        forall|i: int| 0 <= i < line_end(input) ==> input[i] != LINE_FEED,
    decreases input.len(),
{
    if input.len() == 0 || input[0] == LINE_FEED {
    } else {
        lemma_line_end_bound(input.skip(1));
        assert forall|i: int| 0 <= i < line_end(input) implies input[i] != LINE_FEED by {
            if i > 0 {
                assert(input[i] == input.skip(1)[i - 1]);
            }
        }
    }
}

/// The first line of `input` ends at the first index that holds a line feed.
proof fn lemma_line_end_is(input: Seq<u8>, end: int)
    requires
        0 <= end <= input.len(),
        forall|i: int| 0 <= i < end ==> input[i] != LINE_FEED,
        end < input.len() ==> input[end] == LINE_FEED,
    ensures
        line_end(input) == end,
{
    lemma_line_end_bound(input);
    let found = line_end(input) as int;
    if found < end {
        assert(input[found] == LINE_FEED);
    } else if found > end {
        assert(input[end] != LINE_FEED);
    }
}

/// Drop a trailing carriage return from `line`.
fn strip_carriage_return(line: &[u8]) -> (stripped: &[u8])
    ensures
        stripped@ == without_carriage_return(line@),
{
    let len = line.len();
    if len > 0 && line[len - 1] == CARRIAGE_RETURN {
        let stripped = slice_subrange(line, 0, len - 1);
        assert(stripped@ =~= line@.drop_last());
        stripped
    } else {
        line
    }
}

/// Parse the `input` read from an alternates file into the paths it lists,
/// in file order.
///
/// Fails on the first line that starts with a double quote without being a
/// well-formed quoted string; nothing is returned of the other lines then.
pub fn content(input: &[u8]) -> (parsed: Result<Vec<Vec<u8>>, ParseError>)
    ensures
        match parsed {
            Ok(paths) => entries(input@) == Ok::<Seq<Seq<u8>>, Seq<u8>>(byte_strings(paths@)),
            Err(ParseError::Unquote { line }) => entries(input@) == Err::<Seq<Seq<u8>>, Seq<u8>>(
                line@,
            ),
        },
{
    let len = input.len();
    let mut out: Vec<Vec<u8>> = Vec::new();
    let mut start: usize = 0;
    assert(input@.skip(0) =~= input@);
    assert(byte_strings(out@) + Seq::<Seq<u8>>::empty() =~= byte_strings(out@));
    assert(entries(input@) == resume(byte_strings(out@), entries(input@))) by {
        match entries(input@) {
            Ok(paths) => {
                assert(byte_strings(out@) + paths =~= paths);
            },
            Err(_) => {},
        }
    }
    loop
        invariant
            len == input.len(),
            start <= len,
            entries(input@) == resume(byte_strings(out@), entries(input@.skip(start as int))),
        decreases len - start,
    {
        let ghost rest = input@.skip(start as int);
        let ghost found = byte_strings(out@);
        let mut end: usize = start;
        while end < len && input[end] != LINE_FEED
            invariant
                len == input.len(),
                start <= end <= len,
                forall|i: int| start <= i < end ==> input@[i] != LINE_FEED,
            decreases len - end,
        {
            end = end + 1;
        }
        proof {
            lemma_line_end_is(rest, end - start);
        }
        let raw = slice_subrange(input, start, end);
        assert(raw@ =~= rest.take(end - start));
        let line = strip_carriage_return(raw);
        let ghost first = if end == len {
            rest
        } else {
            rest.take(end - start)
        };
        let ghost others = if end == len {
            Seq::<Seq<u8>>::empty()
        } else {
            lines(input@.skip(end + 1))
        };
        proof {
            if end == len {
                assert(raw@ =~= rest);
                assert(lines(rest) == seq![rest]);
            } else {
                assert(rest.skip(end - start + 1) =~= input@.skip(end + 1));
            }
            assert(lines(rest) =~= seq![first] + others);
            assert(lines(rest)[0] == raw@);
            assert(lines(rest).skip(1) =~= others);
        }
        if line.len() == 0 || line[0] == HASH {
        } else if line[0] == QUOTE {
            match unquote::undo(line) {
                Some(path) => {
                    out.push(path);
                    assert(byte_strings(out@) =~= found.push(path@));
                    assert(forall|tail: Seq<Seq<u8>>|
                        found + (seq![path@] + tail) =~= found.push(path@) + tail);
                },
                None => {
                    return Err(ParseError::Unquote { line: slice_to_vec(line) });
                },
            }
        } else {
            let path = slice_to_vec(line);
            out.push(path);
            assert(byte_strings(out@) =~= found.push(path@));
            assert(forall|tail: Seq<Seq<u8>>|
                found + (seq![path@] + tail) =~= found.push(path@) + tail);
        }
        if end == len {
            assert(entries_of_lines(others) == Ok::<Seq<Seq<u8>>, Seq<u8>>(Seq::empty()));
            assert(byte_strings(out@) + Seq::<Seq<u8>>::empty() =~= byte_strings(out@));
            return Ok(out);
        }
        start = end + 1;
    }
}

} // verus!
