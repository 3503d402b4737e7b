//! The lines of what a command printed.
//!
//! A line ends with a line feed, or with a carriage return and a line feed,
//! and holds neither. The last line need not end with one; where it does
//! not, a carriage return at its end is part of it. Nothing follows the last
//! line feed: a text that ends with one has no empty line behind it.

use vstd::prelude::*;
use vstd::string::StringSliceAdditionalSpecFns;
use vstd::utf8::{
    decode_utf8, encode_utf8_decode_utf8, encode_utf8_valid_utf8, is_char_boundary,
    is_char_boundary_iff_not_is_continuation_byte, is_char_boundary_start_end_of_seq, valid_utf8,
};

verus! {

/// The byte that ends a line.
pub const LINE_FEED: u8 = 0x0a;

/// The byte that may stand in front of the line feed.
pub const CARRIAGE_RETURN: u8 = 0x0d;

/// Position of the first line feed from `from` on; the number of bytes if
/// there is none.
pub open spec fn line_end(bytes: Seq<u8>, from: int) -> int
    decreases bytes.len() - from,
{
    if from < 0 || from >= bytes.len() {
        bytes.len() as int
    } else if bytes[from] == LINE_FEED {
        from
    } else {
        line_end(bytes, from + 1)
    }
}

/// A line without the carriage return that stood in front of its line feed.
pub open spec fn without_carriage_return(line: Seq<u8>) -> Seq<u8> {
    if line.len() > 0 && line.last() == CARRIAGE_RETURN {
        line.drop_last()
    } else {
        line
    }
}

/// The lines of a text in UTF-8, as bytes.
pub open spec fn lines_of(bytes: Seq<u8>) -> Seq<Seq<u8>>
    decreases bytes.len(),
{
    let end = line_end(bytes, 0);
    if bytes.len() == 0 {
        Seq::empty()
    } else if end < 0 || end >= bytes.len() {
        seq![bytes]
    } else {
        seq![without_carriage_return(bytes.take(end))] + lines_of(bytes.skip(end + 1))
    }
}

/// The lines of a text in UTF-8, as text.
pub open spec fn text_lines_of(bytes: Seq<u8>) -> Seq<Seq<char>> {
    lines_of(bytes).map_values(|line: Seq<u8>| decode_utf8(line))
}

/// The first line feed is not in front of `from`, and no byte between `from`
/// and the first line feed from there on is one.
pub proof fn lemma_line_end(bytes: Seq<u8>, from: int)
    requires
        0 <= from <= bytes.len(),
    ensures
        from <= line_end(bytes, from) <= bytes.len(),
        line_end(bytes, from) < bytes.len() ==> bytes[line_end(bytes, from)] == LINE_FEED,
        forall|i: int| from <= i < line_end(bytes, from) ==> bytes[i] != LINE_FEED,
    decreases bytes.len() - from,
{
    if from < bytes.len() && bytes[from] != LINE_FEED {
        lemma_line_end(bytes, from + 1);
    }
}

/// Position of the first line feed; the number of bytes if there is none.
fn first_line_feed(bytes: &[u8]) -> (end: usize)
    ensures
        end == line_end(bytes@, 0),
        end <= bytes@.len(),
{
    let mut end: usize = 0;
    while end < bytes.len() && bytes[end] != LINE_FEED
        invariant
            end <= bytes@.len(),
            line_end(bytes@, 0) == line_end(bytes@, end as int),
        decreases bytes@.len() - end,
    {
        end += 1;
    }
    end
}

/// The text without the carriage return at its end, if it has one.
fn strip_carriage_return(line: &str) -> (stripped: &str)
    ensures
        stripped.spec_bytes() == without_carriage_return(line.spec_bytes()),
{
    let bytes = line.as_bytes();
    let len = bytes.len();
    if len > 0 && bytes[len - 1] == CARRIAGE_RETURN {
        proof {
            encode_utf8_valid_utf8(line@);
            is_char_boundary_iff_not_is_continuation_byte(bytes@, len - 1);
        }
        let (stripped, _) = line.split_at(len - 1);
        assert(stripped.spec_bytes() =~= bytes@.drop_last());
        stripped
    } else {
        line
    }
}

/// The lines of a text.
pub fn lines(text: &str) -> (lines: Vec<String>)
    ensures
        lines.deep_view() == text_lines_of(text.spec_bytes()),
{
    let mut lines: Vec<String> = Vec::new();
    let mut rest: &str = text;
    assert(lines.deep_view() + text_lines_of(rest.spec_bytes()) =~= text_lines_of(
        text.spec_bytes(),
    ));
    loop
        invariant_except_break
            lines.deep_view() + text_lines_of(rest.spec_bytes()) == text_lines_of(
                text.spec_bytes(),
            ),
        ensures
            lines.deep_view() == text_lines_of(text.spec_bytes()),
        decreases rest.spec_bytes().len(),
    {
        let bytes = rest.as_bytes();
        let ghost all = bytes@;
        let ghost listed = lines.deep_view();
        proof {
            encode_utf8_valid_utf8(rest@);
            encode_utf8_decode_utf8(rest@);
        }
        if bytes.len() == 0 {
            assert(listed + text_lines_of(all) =~= listed);
            break;
        }
        let end = first_line_feed(bytes);
        if end == bytes.len() {
            lines.push(String::from_str(rest));
            assert(lines_of(all) =~= seq![all]);
            assert(text_lines_of(all) =~= seq![rest@]);
            assert(lines.deep_view() =~= listed + text_lines_of(all));
            break;
        }
        proof {
            lemma_line_end(all, 0);
            is_char_boundary_iff_not_is_continuation_byte(all, end as int);
        }
        let (head, tail) = rest.split_at(end);
        proof {
            encode_utf8_valid_utf8(tail@);
            assert(tail.spec_bytes()[0] == LINE_FEED);
            if tail.spec_bytes().len() == 1 {
                is_char_boundary_start_end_of_seq(tail.spec_bytes());
            } else {
                reveal_with_fuel(is_char_boundary, 2);
            }
        }
        let (_, after) = tail.split_at(1);
        let line = strip_carriage_return(head);
        lines.push(String::from_str(line));
        proof {
            encode_utf8_decode_utf8(line@);
            let first = without_carriage_return(all.take(end as int));
            let others = lines_of(all.skip(end + 1));
            assert(head.spec_bytes() =~= all.take(end as int));
            assert(after.spec_bytes() =~= all.skip(end + 1));
            assert(line.spec_bytes() == first);
            assert(lines_of(all) == seq![first] + others);
            assert(text_lines_of(all) =~= seq![line@] + text_lines_of(after.spec_bytes()));
            assert(lines.deep_view() =~= listed.push(line@));
            assert(lines.deep_view() + text_lines_of(after.spec_bytes()) =~= listed
                + text_lines_of(all));
        }
        rest = after;
    }
    lines
}

} // verus!
