//! The line framer: collects inbound bytes and hands out the lines that
//! are complete.
//!
//! A line ends at the first carriage return that a line feed follows. The
//! two bytes are stripped, and the backspaces in the line are applied from
//! left to right: each removes itself and the byte before it, or only
//! itself at the head of the line. What follows the last complete line
//! stays in the buffer. The framer sets no limit to the length of a line.

use crate::buffers::{append_bytes, copy_range, to_vec};
use vstd::prelude::*;

verus! {

pub const CR: u8 = 0x0D;

pub const LF: u8 = 0x0A;

/// Backspace.
pub const BS: u8 = 0x08;

/// A line under edit after one more byte: a backspace removes the last
/// byte, if there is one; any other byte is added.
pub open spec fn edit_step(acc: Seq<u8>, b: u8) -> Seq<u8> {
    if b != BS {
        acc.push(b)
    } else if acc.len() > 0 {
        acc.drop_last()
    } else {
        acc
    }
}

/// `acc` after the bytes of `line`, applied from left to right.
pub open spec fn edit_onto(acc: Seq<u8>, line: Seq<u8>) -> Seq<u8>
    decreases line.len(),
{
    if line.len() == 0 {
        acc
    } else {
        edit_onto(edit_step(acc, line[0]), line.skip(1))
    }
}

/// `line` with its backspaces applied.
pub open spec fn edit(line: Seq<u8>) -> Seq<u8> {
    edit_onto(Seq::empty(), line)
}

/// Whether a line end, a carriage return and a line feed, stands at
/// position `i` of `s`.
pub open spec fn crlf_at(s: Seq<u8>, i: int) -> bool {
    0 <= i && i + 1 < s.len() && s[i] == CR && s[i + 1] == LF
}

/// Position of the first line end at or behind `from`.
pub open spec fn first_crlf(s: Seq<u8>, from: int) -> Option<int>
    decreases s.len() - from,
{
    if from < 0 || from + 1 >= s.len() {
        None
    } else if crlf_at(s, from) {
        Some(from)
    } else {
        first_crlf(s, from + 1)
    }
}

/// Whether `s` holds a line end.
pub open spec fn has_crlf(s: Seq<u8>) -> bool {
    exists|i: int| crlf_at(s, i)
}

/// What the framer makes of a buffer: the complete lines, and what stays.
pub struct Framed {
    pub lines: Seq<Seq<u8>>,
    pub rest: Seq<u8>,
}

/// The complete lines of `buffer`, edited and in order, and the bytes
/// behind the last of them.
pub open spec fn frame(buffer: Seq<u8>) -> Framed
    decreases buffer.len(),
    via frame_decreases
{
    match first_crlf(buffer, 0) {
        None => Framed { lines: Seq::empty(), rest: buffer },
        Some(i) => {
            let tail = frame(buffer.skip(i + 2));
            Framed { lines: seq![edit(buffer.take(i))] + tail.lines, rest: tail.rest }
        },
    }
}

#[via_fn]
proof fn frame_decreases(buffer: Seq<u8>) {
    lemma_first_crlf(buffer, 0);
}

/// `first_crlf` finds a line end, the first one, exactly where there is
/// one.
pub proof fn lemma_first_crlf(s: Seq<u8>, from: int)
    requires
        0 <= from,
    ensures
        match first_crlf(s, from) {
            Some(i) => {
                &&& from <= i
                &&& crlf_at(s, i)
                &&& forall|j: int| from <= j < i ==> !crlf_at(s, j)
            },
            None => forall|j: int| from <= j ==> !crlf_at(s, j),
        },
    decreases s.len() - from,
{
    if from + 1 < s.len() && !crlf_at(s, from) {
        lemma_first_crlf(s, from + 1);
    }
}

/// The first line end at or behind `from` is at `i` where one stands there
/// and none before.
pub proof fn lemma_first_crlf_is(s: Seq<u8>, from: int, i: int)
    requires
        0 <= from <= i,
        crlf_at(s, i),
        forall|j: int| from <= j < i ==> !crlf_at(s, j),
    ensures
        first_crlf(s, from) == Some(i),
    decreases i - from,
{
    if from < i {
        lemma_first_crlf_is(s, from + 1, i);
    }
}

/// Editing works through a line piece by piece.
pub proof fn lemma_edit_concat(acc: Seq<u8>, x: Seq<u8>, y: Seq<u8>)
    ensures
        edit_onto(acc, x + y) == edit_onto(edit_onto(acc, x), y),
    decreases x.len(),
{
    if x.len() == 0 {
        assert(x + y =~= y);
    } else {
        assert((x + y)[0] == x[0]);
        assert((x + y).skip(1) =~= x.skip(1) + y);
        lemma_edit_concat(edit_step(acc, x[0]), x.skip(1), y);
    }
}

/// A line without a backspace is left as it is.
pub proof fn lemma_edit_plain(line: Seq<u8>)
    requires
        forall|i: int| 0 <= i < line.len() ==> line[i] != BS,
    ensures
        edit(line) == line,
{
    lemma_edit_onto_plain(Seq::empty(), line);
    assert(Seq::<u8>::empty() + line =~= line);
}

/// Bytes without a backspace among them are added as they are.
pub proof fn lemma_edit_onto_plain(acc: Seq<u8>, line: Seq<u8>)
    requires
        forall|i: int| 0 <= i < line.len() ==> line[i] != BS,
    ensures
        edit_onto(acc, line) == acc + line,
    decreases line.len(),
{
    if line.len() == 0 {
        assert(acc + line =~= acc);
    } else {
        let tail = line.skip(1);
        assert forall|i: int| 0 <= i < tail.len() implies tail[i] != BS by {
            assert(tail[i] == line[i + 1]);
        }
        lemma_edit_onto_plain(acc.push(line[0]), tail);
        assert(acc.push(line[0]) + tail =~= acc + line);
    }
}

/// The first backspace of a line removes itself and the byte before it, or
/// only itself at the head of the line; the line is then edited on.
pub proof fn lemma_edit_first_backspace(before: Seq<u8>, after: Seq<u8>)
    requires
        forall|i: int| 0 <= i < before.len() ==> before[i] != BS,
    ensures
        edit(before + seq![BS] + after) == if before.len() > 0 {
            edit(before.drop_last() + after)
        } else {
            edit(after)
        },
{
    let empty = Seq::<u8>::empty();
    lemma_edit_concat(empty, before + seq![BS], after);
    lemma_edit_concat(empty, before, seq![BS]);
    lemma_edit_plain(before);
    let one = seq![BS];
    assert(one[0] == BS);
    assert(one.skip(1) =~= empty);
    assert(edit_onto(edit_step(before, BS), one.skip(1)) == edit_step(before, BS));
    assert(edit_onto(before, one) == edit_step(before, BS));
    if before.len() > 0 {
        let kept = before.drop_last();
        assert forall|i: int| 0 <= i < kept.len() implies kept[i] != BS by {
            assert(kept[i] == before[i]);
        }
        lemma_edit_concat(empty, kept, after);
        lemma_edit_plain(kept);
    } else {
        assert(before + one + after =~= one + after);
        assert(edit_step(before, BS) =~= empty);
    }
}

/// The framer works on a stream as on its whole: the lines of two chunks
/// fed in turn are the lines of the two chunks joined, and so is what stays
/// in the buffer.
pub proof fn lemma_frame_chunks(a: Seq<u8>, b: Seq<u8>)
    ensures
        frame(a + b).lines == frame(a).lines + frame(frame(a).rest + b).lines,
        frame(a + b).rest == frame(frame(a).rest + b).rest,
    decreases a.len(),
{
    lemma_first_crlf(a, 0);
    match first_crlf(a, 0) {
        None => {
            assert(frame(a).lines + frame(a + b).lines =~= frame(a + b).lines);
        },
        Some(i) => {
            let ab = a + b;
            assert(crlf_at(ab, i));
            assert forall|j: int| 0 <= j < i implies !crlf_at(ab, j) by {
                assert(!crlf_at(a, j));
            }
            lemma_first_crlf_is(ab, 0, i);
            assert(ab.take(i) =~= a.take(i));
            assert(ab.skip(i + 2) =~= a.skip(i + 2) + b);
            lemma_frame_chunks(a.skip(i + 2), b);
            assert(frame(ab).lines =~= frame(a).lines + frame(frame(a).rest + b).lines);
        },
    }
}

/// The lines `lines`, each followed by its line end.
pub open spec fn join_lines(lines: Seq<Seq<u8>>) -> Seq<u8>
    decreases lines.len(),
{
    if lines.len() == 0 {
        Seq::empty()
    } else {
        lines[0] + seq![CR, LF] + join_lines(lines.skip(1))
    }
}

/// From the lines `lines`, each followed by its line end, and a tail, the
/// framer takes exactly these lines, edited and in order, and keeps the
/// tail, provided that no line and not the tail holds a line end itself.
pub proof fn lemma_frame_joined(lines: Seq<Seq<u8>>, tail: Seq<u8>)
    requires
        forall|k: int| 0 <= k < lines.len() ==> !has_crlf(#[trigger] lines[k]),
        !has_crlf(tail),
    ensures
        frame(join_lines(lines) + tail).lines == lines.map_values(|line: Seq<u8>| edit(line)),
        frame(join_lines(lines) + tail).rest == tail,
    decreases lines.len(),
{
    let s = join_lines(lines) + tail;
    let edited = lines.map_values(|line: Seq<u8>| edit(line));
    if lines.len() == 0 {
        assert(s =~= tail);
        lemma_first_crlf(tail, 0);
        if first_crlf(tail, 0) is Some {
            assert(crlf_at(tail, first_crlf(tail, 0).unwrap()));
        }
        assert(frame(s).lines =~= edited);
    } else {
        let first = lines[0];
        let others = lines.skip(1);
        let n = first.len() as int;
        let after = join_lines(others) + tail;
        assert(s =~= first + seq![CR, LF] + after);
        assert(crlf_at(s, n));
        assert forall|j: int| 0 <= j < n implies !crlf_at(s, j) by {
            if j + 1 < n {
                assert(!crlf_at(first, j));
            }
        }
        lemma_first_crlf_is(s, 0, n);
        assert(s.take(n) =~= first);
        assert(s.skip(n + 2) =~= after);
        assert forall|k: int| 0 <= k < others.len() implies !has_crlf(#[trigger] others[k]) by {
            assert(others[k] == lines[k + 1]);
        }
        lemma_frame_joined(others, tail);
        assert(frame(s).lines =~= edited);
    }
}

/// The lines of a vector, each by its view.
pub open spec fn line_views(lines: Seq<Vec<u8>>) -> Seq<Seq<u8>> {
    lines.map_values(|line: Vec<u8>| line@)
}

/// Applies the backspaces of `line`.
pub fn edit_line(line: &[u8]) -> (out: Vec<u8>)
    ensures
        out@ == edit(line@),
{
    let mut out: Vec<u8> = Vec::new();
    let mut i: usize = 0;
    assert(line@.skip(0) =~= line@);
    while i < line.len()
        invariant
            i <= line@.len(),
            edit(line@) == edit_onto(out@, line@.skip(i as int)),
        decreases line@.len() - i,
    {
        let b = line[i];
        assert(line@.skip(i as int)[0] == b);
        assert(line@.skip(i as int).skip(1) =~= line@.skip(i + 1));
        if b != BS {
            out.push(b);
        } else if out.len() > 0 {
            out.pop();
        }
        i = i + 1;
    }
    out
}

/// Position of the first line end in `s`.
pub fn find_crlf(s: &[u8]) -> (found: Option<usize>)
    ensures
        match found {
            Some(i) => first_crlf(s@, 0) == Some(i as int) && i + 2 <= s@.len(),
            None => first_crlf(s@, 0) is None,
        },
{
    let mut i: usize = 0;
    while i < s.len() && s.len() - i >= 2
        invariant
            i <= s@.len(),
            first_crlf(s@, 0) == first_crlf(s@, i as int),
        decreases s@.len() - i,
    {
        if s[i] == CR && s[i + 1] == LF {
            return Some(i);
        }
        i = i + 1;
    }
    None
}

/// Takes the first complete line off `buffer`: returns the line, edited
/// and without its line end, and the bytes behind it. Where no line is
/// complete, returns no line and the buffer as it came.
pub fn read_line(buffer: Vec<u8>) -> (r: (Option<Vec<u8>>, Vec<u8>))
    ensures
        match first_crlf(buffer@, 0) {
            Some(i) => {
                &&& r.0 is Some
                &&& r.0.unwrap()@ == edit(buffer@.take(i))
                &&& r.1@ == buffer@.skip(i + 2)
            },
            None => r.0 is None && r.1@ == buffer@,
        },
{
    match find_crlf(buffer.as_slice()) {
        None => (None, buffer),
        Some(i) => {
            proof {
                lemma_first_crlf(buffer@, 0);
                assert(crlf_at(buffer@, i as int));
            }
            let line_data = copy_range(buffer.as_slice(), 0, i);
            let new_buf = copy_range(buffer.as_slice(), i + 2, buffer.len());
            assert(line_data@ =~= buffer@.take(i as int));
            assert(new_buf@ =~= buffer@.skip(i + 2));
            let line = edit_line(line_data.as_slice());
            (Some(line), new_buf)
        },
    }
}

/// The bytes of one connection that no complete line has claimed yet.
#[derive(Debug)]
pub struct FramingBuffer {
    data: Vec<u8>,
}

impl Clone for FramingBuffer {
    fn clone(&self) -> (copy: FramingBuffer)
        ensures
            copy@ == self@,
    {
        FramingBuffer { data: to_vec(self.data.as_slice()) }
    }
}

impl View for FramingBuffer {
    type V = Seq<u8>;

    closed spec fn view(&self) -> Seq<u8> {
        self.data@
    }
}

impl FramingBuffer {
    /// An empty buffer.
    pub fn new() -> (buffer: FramingBuffer)
        ensures
            buffer@ == Seq::<u8>::empty(),
    {
        FramingBuffer { data: Vec::new() }
    }

    /// Number of bytes that wait for their line end.
    pub fn len(&self) -> (n: usize)
        ensures
            n == self@.len(),
    {
        self.data.len()
    }

    /// The bytes that wait for their line end.
    pub fn residual(&self) -> (bytes: &[u8])
        ensures
            bytes@ == self@,
    {
        self.data.as_slice()
    }

    /// Appends `chunk` and takes out every line that is complete now.
    pub fn feed(&mut self, chunk: &[u8]) -> (lines: Vec<Vec<u8>>)
        ensures
            line_views(lines@) == frame(old(self)@ + chunk@).lines,
            final(self)@ == frame(old(self)@ + chunk@).rest,
    {
        append_bytes(&mut self.data, chunk);
        let ghost whole = self.data@;
        let mut lines: Vec<Vec<u8>> = Vec::new();
        let mut buffer: Vec<u8> = Vec::new();
        buffer.append(&mut self.data);
        assert(buffer@ =~= whole);
        loop
            invariant
                frame(whole).lines == line_views(lines@) + frame(buffer@).lines,
                frame(whole).rest == frame(buffer@).rest,
            ensures
                frame(whole).lines == line_views(lines@),
                frame(whole).rest == self.data@,
            decreases buffer@.len(),
        {
            proof {
                lemma_first_crlf(buffer@, 0);
            }
            let ghost before = line_views(lines@);
            let ghost current = buffer@;
            let (linebuf, new_buffer) = read_line(buffer);
            match linebuf {
                None => {
                    self.data = new_buffer;
                    assert(before + Seq::<Seq<u8>>::empty() =~= before);
                    break;
                },
                Some(line) => {
                    lines.push(line);
                    assert(line_views(lines@) =~= before.push(line@));
                    assert(before.push(line@) + frame(new_buffer@).lines =~= before + frame(
                        current,
                    ).lines);
                    buffer = new_buffer;
                },
            }
        }
        lines
    }
}

} // verus!
