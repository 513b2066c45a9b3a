//! The header block: lines of `key: value`, separated by CRLF.

use crate::text::{chars_of, find_char, index_of, string_of, trim, trim_slice};
use vstd::prelude::*;
use vstd::slice::slice_subrange;
use vstd::utf8::encode_utf8;

verus! {

/// One header: a name and a value.
#[derive(Debug, Clone, PartialEq, Eq)]
pub struct HttpHeader {
    pub name: String,
    pub value: String,
}

impl View for HttpHeader {
    type V = (Seq<char>, Seq<char>);

    open spec fn view(&self) -> (Seq<char>, Seq<char>) {
        (self.name@, self.value@)
    }
}

/// The names and values of a list of headers, in order.
pub open spec fn headers_view(headers: Seq<HttpHeader>) -> Seq<(Seq<char>, Seq<char>)> {
    headers.map_values(|h: HttpHeader| h@)
}

/// Whether a CRLF begins at index `i` of `s`.
pub open spec fn crlf_at(s: Seq<char>, i: int) -> bool {
    0 <= i && i + 1 < s.len() && s[i] == '\r' && s[i + 1] == '\n'
}

/// The lines of `s` from the line that begins at `start` on, where no CRLF begins
/// in `start..i`: a line ends where the next CRLF begins, the following line
/// begins behind that CRLF, and the last line ends with `s`.
pub open spec fn lines_from(s: Seq<char>, start: int, i: int) -> Seq<Seq<char>>
    decreases s.len() - i,
{
    if i < 0 || i >= s.len() {
        seq![s.subrange(start, s.len() as int)]
    } else if crlf_at(s, i) {
        seq![s.subrange(start, i)] + lines_from(s, i + 2, i + 2)
    } else {
        lines_from(s, start, i + 1)
    }
}

/// The lines of `s`: the pieces between its CRLFs, one more than it has CRLFs
/// when these are counted from the left and without overlap.
pub open spec fn split_lines(s: Seq<char>) -> Seq<Seq<char>> {
    lines_from(s, 0, 0)
}

/// The header that a line holds: the text before its first colon and the text
/// behind it, each trimmed. A line without a colon holds none.
pub open spec fn parse_line(line: Seq<char>) -> Option<(Seq<char>, Seq<char>)> {
    let colon = find_char(line, ':', 0);
    if colon < line.len() {
        Some((trim(line.take(colon)), trim(line.skip(colon + 1))))
    } else {
        None
    }
}

/// The headers that a list of lines holds, in order; lines without a colon are
/// passed over.
pub open spec fn collect_headers(lines: Seq<Seq<char>>) -> Seq<(Seq<char>, Seq<char>)>
    decreases lines.len(),
{
    if lines.len() == 0 {
        seq![]
    } else {
        let before = collect_headers(lines.drop_last());
        match parse_line(lines.last()) {
            Some(header) => before.push(header),
            None => before,
        }
    }
}

/// The headers of a header block.
pub open spec fn parse_headers(block: Seq<char>) -> Seq<(Seq<char>, Seq<char>)> {
    collect_headers(split_lines(block))
}

/// The bytes of one header in a block: name, colon, space, value, CRLF.
pub open spec fn header_line(header: (Seq<char>, Seq<char>)) -> Seq<u8> {
    encode_utf8(header.0) + seq![0x3au8, 0x20u8] + encode_utf8(header.1) + seq![0x0du8, 0x0au8]
}

/// The bytes of a header block: the lines of its headers, one after the other.
pub open spec fn header_block(headers: Seq<(Seq<char>, Seq<char>)>) -> Seq<u8>
    decreases headers.len(),
{
    if headers.len() == 0 {
        seq![]
    } else {
        header_block(headers.drop_last()) + header_line(headers.last())
    }
}

/// The lines joined again, with a CRLF between each two.
pub open spec fn join_lines(lines: Seq<Seq<char>>) -> Seq<char>
    decreases lines.len(),
{
    if lines.len() == 0 {
        seq![]
    } else if lines.len() == 1 {
        lines[0]
    } else {
        lines[0] + seq!['\r', '\n'] + join_lines(lines.drop_first())
    }
}

/// Whether a CRLF begins anywhere in `line`.
pub open spec fn holds_crlf(line: Seq<char>) -> bool {
    exists|j: int| crlf_at(line, j)
}

/// The lines from a line that begins at `start` on hold no CRLF and, joined,
/// give the text from `start` on.
proof fn lemma_lines_from_join(s: Seq<char>, start: int, i: int)
    requires
        0 <= start <= i <= s.len(),
        forall|j: int| start <= j < i ==> !crlf_at(s, j),
    ensures
        lines_from(s, start, i).len() >= 1,
        join_lines(lines_from(s, start, i)) == s.subrange(start, s.len() as int),
        forall|k: int|
            0 <= k < lines_from(s, start, i).len() ==> !holds_crlf(
                #[trigger] lines_from(s, start, i)[k],
            ),
    decreases s.len() - i,
{
    let lines = lines_from(s, start, i);
    if i >= s.len() {
        let line = s.subrange(start, s.len() as int);
        assert forall|j: int| !crlf_at(line, j) by {
            if crlf_at(line, j) {
                assert(crlf_at(s, start + j));
            }
        }
    } else if crlf_at(s, i) {
        let line = s.subrange(start, i);
        let rest = lines_from(s, i + 2, i + 2);
        lemma_lines_from_join(s, i + 2, i + 2);
        assert forall|j: int| !crlf_at(line, j) by {
            if crlf_at(line, j) {
                assert(crlf_at(s, start + j));
            }
        }
        assert(lines.drop_first() =~= rest);
        assert(line + seq!['\r', '\n'] + s.subrange(i + 2, s.len() as int) =~= s.subrange(
            start,
            s.len() as int,
        ));
        assert forall|k: int| 0 <= k < lines.len() implies !holds_crlf(#[trigger] lines[k]) by {
            if k > 0 {
                assert(lines[k] == rest[k - 1]);
            }
        }
    } else {
        lemma_lines_from_join(s, start, i + 1);
    }
}

/// Splitting loses nothing and cuts at every CRLF: the lines of a text, joined
/// with a CRLF between each two, give the text, and no line holds a CRLF.
pub proof fn lemma_split_lines_join(s: Seq<char>)
    ensures
        split_lines(s).len() >= 1,
        join_lines(split_lines(s)) == s,
        forall|k: int| 0 <= k < split_lines(s).len() ==> !holds_crlf(#[trigger] split_lines(s)[k]),
{
    lemma_lines_from_join(s, 0, 0);
    assert(s.subrange(0, s.len() as int) =~= s);
}

/// Collecting the headers of `lines` and of one more line.
proof fn lemma_collect_push(lines: Seq<Seq<char>>, line: Seq<char>)
    ensures
        collect_headers(lines.push(line)) == match parse_line(line) {
            Some(header) => collect_headers(lines).push(header),
            None => collect_headers(lines),
        },
{
    assert(lines.push(line).drop_last() =~= lines);
}

/// Lines already read, followed by a line and the lines behind it.
proof fn lemma_lines_cons(done: Seq<Seq<char>>, first: Seq<char>, rest: Seq<Seq<char>>)
    ensures
        done + (seq![first] + rest) == done.push(first) + rest,
{
    assert(done + (seq![first] + rest) =~= done.push(first) + rest);
}

/// Reads the header of one line, if it holds one.
pub fn parse_header_line(line: &[char]) -> (header: Option<HttpHeader>)
    ensures
        header is Some <==> parse_line(line@) is Some,
        header matches Some(h) ==> Some(h@) == parse_line(line@),
{
    let colon = index_of(line, ':');
    if colon < line.len() {
        let name = trim_slice(slice_subrange(line, 0, colon));
        let value = trim_slice(slice_subrange(line, colon + 1, line.len()));
        Some(HttpHeader { name: string_of(name), value: string_of(value) })
    } else {
        None
    }
}

/// Reads the headers of a header block: splits it at each CRLF, then each line at
/// its first colon, and trims name and value. Lines without a colon are passed
/// over.
pub fn parse_header_block(block: &str) -> (headers: Vec<HttpHeader>)
    ensures
        headers_view(headers@) == parse_headers(block@),
{
    let chars = chars_of(block);
    let text = chars.as_slice();
    let mut headers: Vec<HttpHeader> = Vec::new();
    let ghost mut done: Seq<Seq<char>> = seq![];
    let mut start: usize = 0;
    let mut i: usize = 0;
    while i < text.len()
        invariant
            text@ == block@,
            start <= i <= text.len(),
            split_lines(text@) == done + lines_from(text@, start as int, i as int),
            headers_view(headers@) == collect_headers(done),
        decreases text.len() - i,
    {
        if i + 1 < text.len() && text[i] == '\r' && text[i + 1] == '\n' {
            let line = slice_subrange(text, start, i);
            let header = parse_header_line(line);
            proof {
                lemma_lines_cons(done, line@, lines_from(text@, i as int + 2, i as int + 2));
                lemma_collect_push(done, line@);
                done = done.push(line@);
            }
            match header {
                Some(h) => {
                    proof {
                        assert(headers_view(headers@.push(h)) =~= headers_view(headers@).push(
                            h@,
                        ));
                    }
                    headers.push(h);
                },
                None => {},
            }
            i += 2;
            start = i;
        } else {
            i += 1;
        }
    }
    let line = slice_subrange(text, start, text.len());
    let header = parse_header_line(line);
    proof {
        assert(done + seq![line@] =~= done.push(line@));
        lemma_collect_push(done, line@);
    }
    match header {
        Some(h) => {
            proof {
                assert(headers_view(headers@.push(h)) =~= headers_view(headers@).push(h@));
            }
            headers.push(h);
        },
        None => {},
    }
    headers
}

/// Writes a header block: for each header its name, a colon and a space, its
/// value and a CRLF.
pub fn serialize_headers(headers: &Vec<HttpHeader>) -> (block: Vec<u8>)
    ensures
        block@ == header_block(headers_view(headers@)),
{
    let mut block: Vec<u8> = Vec::new();
    let mut i: usize = 0;
    while i < headers.len()
        invariant
            i <= headers.len(),
            block@ == header_block(headers_view(headers@).take(i as int)),
        decreases headers.len() - i,
    {
        let ghost before = block@;
        let header = &headers[i];
        block.extend_from_slice(header.name.as_str().as_bytes());
        block.push(0x3a);
        block.push(0x20);
        block.extend_from_slice(header.value.as_str().as_bytes());
        block.push(0x0d);
        block.push(0x0a);
        proof {
            let all = headers_view(headers@);
            assert(all.take(i as int + 1).drop_last() =~= all.take(i as int));
            assert(all.take(i as int + 1).last() == header@);
            assert(block@ =~= before + header_line(header@));
        }
        i += 1;
    }
    assert(headers_view(headers@).take(headers.len() as int) =~= headers_view(headers@));
    block
}

} // verus!
