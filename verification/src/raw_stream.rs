//! The raw encoding: each line as it came, with a line break behind it.

use crate::join_iter::concat;
use vstd::prelude::*;

verus! {

/// A line with its line break.
pub open spec fn raw_line(line: Seq<char>) -> Seq<char> {
    line + "\n"@
}

/// The body for a list of lines: each line with its line break, in order.
pub open spec fn raw_body(lines: Seq<Seq<char>>) -> Seq<char> {
    concat(lines.map_values(|line: Seq<char>| raw_line(line)))
}

/// The view of a list of lines.
pub open spec fn lines_view(lines: Seq<String>) -> Seq<Seq<char>> {
    lines.map_values(|line: String| line@)
}

/// The chunk for one line: the line, unchanged, and a line break.
pub fn raw_chunk(line: String) -> (chunk: String)
    ensures
        chunk@ == raw_line(line@),
{
    let mut chunk = line;
    chunk.append("\n");
    chunk
}

/// The body for lines that are at hand as a whole.
pub fn encode_lines(lines: &Vec<String>) -> (out: String)
    ensures
        out@ == raw_body(lines_view(lines@)),
{
    let mut out = String::new();
    let ghost chunks = lines_view(lines@).map_values(|line: Seq<char>| raw_line(line));
    let n: usize = lines.len();
    let mut i: usize = 0;
    assert(chunks.take(0) =~= Seq::<Seq<char>>::empty());
    while i < n
        invariant
            i <= n,
            n == lines@.len(),
            chunks == lines_view(lines@).map_values(|line: Seq<char>| raw_line(line)),
            out@ == concat(chunks.take(i as int)),
        decreases n - i,
    {
        out.append(lines[i].as_str());
        out.append("\n");
        proof {
            assert(chunks.take(i + 1).drop_last() =~= chunks.take(i as int));
            assert(chunks.take(i + 1).last() == raw_line(lines@[i as int]@));
            assert(out@ =~= concat(chunks.take(i + 1)));
        }
        i += 1;
    }
    assert(chunks.take(n as int) =~= chunks);
    out
}

} // verus!
