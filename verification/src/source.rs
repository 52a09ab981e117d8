//! The term source: a newline-delimited byte stream, one term per line.

use core::str::Utf8Error;
use vstd::prelude::*;
use vstd::slice::slice_subrange;
use vstd::slice::slice_to_vec;
use vstd::utf8::valid_utf8;

verus! {

/// The byte that ends a line.
pub const LINE_FEED: u8 = 0x0A;

/// The byte that, directly before a line feed, belongs to the line's end.
pub const CARRIAGE_RETURN: u8 = 0x0D;

/// The position of the first line feed at or after `from`, or the length of
/// `bytes` where there is none.
pub open spec fn line_end(bytes: Seq<u8>, from: int) -> int
    recommends
        0 <= from,
    decreases bytes.len() - from,
{
    if from >= bytes.len() {
        bytes.len() as int
    } else if bytes[from] == LINE_FEED {
        from
    } else {
        line_end(bytes, from + 1)
    }
}

/// The term on the line that starts at `from` and ends at `end`: the bytes
/// between the two, without the carriage return of a line that ends in
/// carriage return and line feed.
pub open spec fn line_term(bytes: Seq<u8>, from: int, end: int) -> Seq<u8>
    recommends
        0 <= from <= end <= bytes.len(),
{
    if from < end < bytes.len() && bytes[end - 1] == CARRIAGE_RETURN {
        bytes.subrange(from, end - 1)
    } else {
        bytes.subrange(from, end)
    }
}

/// Where the line after the one that starts at `from` starts: behind the
/// line feed, or at the end of `bytes` where the line is the last.
pub open spec fn line_next(bytes: Seq<u8>, from: int) -> int
    recommends
        0 <= from,
{
    let end = line_end(bytes, from);
    if end < bytes.len() {
        end + 1
    } else {
        bytes.len() as int
    }
}

/// The terms on the lines of `bytes` from position `from` on.
pub open spec fn lines_from(bytes: Seq<u8>, from: int) -> Seq<Seq<u8>>
    recommends
        0 <= from,
    decreases bytes.len() - from,
{
    if from < 0 || from >= bytes.len() {
        Seq::empty()
    } else {
        let end = line_end(bytes, from);
        proof {
            lemma_line_end(bytes, from);
        }
        if end < bytes.len() {
            seq![line_term(bytes, from, end)] + lines_from(bytes, end + 1)
        } else {
            seq![line_term(bytes, from, end)]
        }
    }
}

/// The terms of a source, in order. A line ends at a line feed, or at a
/// carriage return followed by one; bytes after the last line feed are a line
/// too; an empty source has no line.
pub open spec fn lines_of(bytes: Seq<u8>) -> Seq<Seq<u8>> {
    lines_from(bytes, 0)
}

/// The byte strings that the vectors of `terms` hold.
pub open spec fn term_views(terms: Seq<Vec<u8>>) -> Seq<Seq<u8>> {
    terms.map_values(|term: Vec<u8>| term@)
}

/// Whether every term is valid UTF-8 text.
pub open spec fn all_text(terms: Seq<Seq<u8>>) -> bool {
    forall|i: int| 0 <= i < terms.len() ==> valid_utf8(#[trigger] terms[i])
}

/// A line ends at or after its start, no line feed lies inside it, and it
/// ends before a line feed or at the end of the source.
pub proof fn lemma_line_end(bytes: Seq<u8>, from: int)
    requires
        0 <= from <= bytes.len(),
    ensures
        from <= line_end(bytes, from) <= bytes.len(),
        forall|k: int| from <= k < line_end(bytes, from) ==> bytes[k] != LINE_FEED,
        line_end(bytes, from) < bytes.len() ==> bytes[line_end(bytes, from)] == LINE_FEED,
    decreases bytes.len() - from,
{
    if from < bytes.len() && bytes[from] != LINE_FEED {
        lemma_line_end(bytes, from + 1);
    }
}

/// `core::str::Utf8Error`, carried through as an opaque value.
#[verifier::external_type_specification]
#[verifier::external_body]
pub struct ExUtf8Error(Utf8Error);

/// `core::str::from_utf8` succeeds exactly on the byte strings that are valid
/// UTF-8.
pub assume_specification[ core::str::from_utf8 ](bytes: &[u8]) -> (text: Result<&str, Utf8Error>)
    ensures
        text is Ok <==> valid_utf8(bytes@),
;

/// One line of a source.
pub struct Line<'a> {
    /// The term on the line.
    pub term: &'a [u8],
    /// Where the next line starts, or the length of the source after the
    /// last line.
    pub next: usize,
}

/// The line of `source` that starts at `from`, or `None` at the end of the
/// source.
pub fn read_line<'a>(source: &'a [u8], from: usize) -> (line: Option<Line<'a>>)
    ensures
        line is None <==> from >= source@.len(),
        line matches Some(l) ==> {
            &&& l.term@ == line_term(source@, from as int, line_end(source@, from as int))
            &&& l.next == line_next(source@, from as int)
            &&& from < l.next <= source@.len()
            &&& lines_from(source@, from as int) == seq![l.term@] + lines_from(
                source@,
                l.next as int,
            )
        },
{
    let len: usize = source.len();
    if from >= len {
        return None;
    }
    let mut end: usize = from;
    while end < len && source[end] != LINE_FEED
        invariant
            len == source@.len(),
            from <= end <= len,
            line_end(source@, from as int) == line_end(source@, end as int),
        decreases len - end,
    {
        end += 1;
    }
    let stop: usize = if from < end && end < len && source[end - 1] == CARRIAGE_RETURN {
        end - 1
    } else {
        end
    };
    let next: usize = if end < len {
        end + 1
    } else {
        len
    };
    proof {
        lemma_line_end(source@, from as int);
        assert(lines_from(source@, len as int) == Seq::<Seq<u8>>::empty());
    }
    Some(Line { term: slice_subrange(source, from, stop), next })
}

/// Whether `term` is valid UTF-8 text.
pub fn is_valid_term(term: &[u8]) -> (ok: bool)
    ensures
        ok == valid_utf8(term@),
{
    match core::str::from_utf8(term) {
        Ok(_) => true,
        Err(_) => false,
    }
}

/// The number of lines of a source.
pub fn count_lines(source: &[u8]) -> (count: usize)
    ensures
        count == lines_of(source@).len(),
{
    let mut count: usize = 0;
    let mut from: usize = 0;
    loop
        invariant
            count <= from <= source@.len(),
            lines_of(source@).len() == count + lines_from(source@, from as int).len(),
        ensures
            lines_of(source@).len() == count,
        decreases source@.len() - from,
    {
        match read_line(source, from) {
            None => {
                break ;
            },
            Some(line) => {
                count += 1;
                from = line.next;
            },
        }
    }
    count
}

/// The terms of a source, in order, each as its bytes.
pub fn split_lines(source: &[u8]) -> (terms: Vec<Vec<u8>>)
    ensures
        term_views(terms@) == lines_of(source@),
{
    let mut terms: Vec<Vec<u8>> = Vec::new();
    let mut from: usize = 0;
    loop
        invariant
            from <= source@.len(),
            lines_of(source@) == term_views(terms@) + lines_from(source@, from as int),
        ensures
            lines_of(source@) == term_views(terms@),
        decreases source@.len() - from,
    {
        match read_line(source, from) {
            None => {
                break ;
            },
            Some(line) => {
                let ghost before = term_views(terms@);
                terms.push(slice_to_vec(line.term));
                assert(term_views(terms@) == before.push(line.term@));
                from = line.next;
            },
        }
    }
    terms
}

} // verus!
