//! Cutting a long message into chunks for a chat service: the message is
//! read line by line, every line is kept with its line feed, and a chunk is
//! closed as soon as the UTF-8 bytes of the lines it holds reach the limit.
use vstd::prelude::*;
use vstd::string::*;
use vstd::utf8::{char_is_scalar, encode_scalar, encode_utf8};

verus! {

/// Byte count of line text at which a chunk is closed.
pub const CHUNK_BYTES: usize = 1500;

/// Number of bytes in the UTF-8 encoding of `c`.
pub open spec fn utf8_width(c: char) -> nat {
    if (c as u32) < 0x80 {
        1
    } else if (c as u32) < 0x800 {
        2
    } else if (c as u32) < 0x10000 {
        3
    } else {
        4
    }
}

/// Number of bytes in the UTF-8 encoding of `s` (what `str::len` returns).
pub open spec fn utf8_bytes(s: Seq<char>) -> nat
    decreases s.len(),
{
    if s.len() == 0 {
        0
    } else {
        utf8_bytes(s.drop_last()) + utf8_width(s.last())
    }
}

/// The pieces of `s` between line feeds, as `str::split("\n")` yields them:
/// one more piece than `s` has line feeds.
pub open spec fn split_lines(s: Seq<char>) -> Seq<Seq<char>>
    decreases s.len(),
{
    if s.len() == 0 {
        seq![Seq::empty()]
    } else {
        let r = split_lines(s.drop_last());
        if s.last() == '\n' {
            r.push(Seq::empty())
        } else {
            r.update(r.len() - 1, r.last().push(s.last()))
        }
    }
}

/// The state after packing `lines` one after another: the chunks already
/// closed, the chunk being filled, and the bytes of line text it holds.
pub open spec fn pack_lines(lines: Seq<Seq<char>>) -> (Seq<Seq<char>>, Seq<char>, nat)
    decreases lines.len(),
{
    if lines.len() == 0 {
        (Seq::empty(), Seq::empty(), 0)
    } else {
        pack_step(pack_lines(lines.drop_last()), lines.last())
    }
}

/// Adds `line` and its line feed to the chunk being filled, and closes that
/// chunk when the bytes of line text in it reach the limit.
pub open spec fn pack_step(prev: (Seq<Seq<char>>, Seq<char>, nat), line: Seq<char>) -> (
    Seq<Seq<char>>,
    Seq<char>,
    nat,
) {
    let pending = prev.1 + line.push('\n');
    let count = prev.2 + utf8_bytes(line);
    if count >= CHUNK_BYTES {
        (prev.0.push(pending), Seq::empty(), 0)
    } else {
        (prev.0, pending, count)
    }
}

/// The chunks that `message` is sent in: the closed ones, then the one
/// being filled when the lines ran out (which may be empty).
pub open spec fn chunks_of(message: Seq<char>) -> Seq<Seq<char>> {
    let packed = pack_lines(split_lines(message));
    packed.0.push(packed.1)
}

/// Every line of `lines` followed by a line feed, one after another.
pub open spec fn terminated(lines: Seq<Seq<char>>) -> Seq<char>
    decreases lines.len(),
{
    if lines.len() == 0 {
        Seq::empty()
    } else {
        terminated(lines.drop_last()) + lines.last().push('\n')
    }
}

proof fn lemma_split_lines_nonempty(s: Seq<char>)
    ensures
        split_lines(s).len() >= 1,
    decreases s.len(),
{
    if s.len() > 0 {
        lemma_split_lines_nonempty(s.drop_last());
    }
}

proof fn lemma_terminated_split(s: Seq<char>)
    ensures
        terminated(split_lines(s)) == s.push('\n'),
    decreases s.len(),
{
    if s.len() == 0 {
        let l = split_lines(s);
        assert(l.drop_last() =~= Seq::<Seq<char>>::empty());
        assert(terminated(l.drop_last()) == Seq::<char>::empty());
        assert(l.last() == Seq::<char>::empty());
        assert(terminated(l) =~= s.push('\n'));
    } else {
        let p = s.drop_last();
        let r = split_lines(p);
        lemma_terminated_split(p);
        lemma_split_lines_nonempty(p);
        if s.last() == '\n' {
            assert(r.push(Seq::empty()).drop_last() =~= r);
            assert(terminated(split_lines(s)) =~= s.push('\n'));
        } else {
            let k = r.len() - 1;
            let u = r.update(k, r.last().push(s.last()));
            assert(u.drop_last() =~= r.drop_last());
            assert(terminated(r) == terminated(r.drop_last()) + r.last().push('\n'));
            assert(terminated(r.drop_last()) + r.last() =~= p) by {
                assert(p.push('\n') =~= (terminated(r.drop_last()) + r.last()).push('\n'));
                assert(p =~= p.push('\n').drop_last());
                assert(terminated(r.drop_last()) + r.last() =~= (terminated(r.drop_last())
                    + r.last()).push('\n').drop_last());
            }
            assert(terminated(u) =~= s.push('\n')) by {
                assert(s =~= p.push(s.last()));
            }
        }
    }
}

proof fn lemma_pack_keeps_text(lines: Seq<Seq<char>>)
    ensures
        pack_lines(lines).0.flatten_alt() + pack_lines(lines).1 == terminated(lines),
    decreases lines.len(),
{
    if lines.len() > 0 {
        let prev = pack_lines(lines.drop_last());
        lemma_pack_keeps_text(lines.drop_last());
        let pending = prev.1 + lines.last().push('\n');
        assert(prev.0.push(pending).drop_last() =~= prev.0);
        assert(pack_lines(lines).0.flatten_alt() + pack_lines(lines).1 =~= terminated(lines));
    }
}

/// Sending the chunks one after another sends the whole message, in order,
/// with one line feed after its last line: no text is lost, repeated or moved.
pub proof fn law_chunks_keep_message(message: Seq<char>)
    ensures
        chunks_of(message).flatten() == message.push('\n'),
{
    let packed = pack_lines(split_lines(message));
    lemma_pack_keeps_text(split_lines(message));
    lemma_terminated_split(message);
    packed.0.push(packed.1).lemma_flatten_and_flatten_alt_are_equivalent();
    assert(packed.0.push(packed.1).drop_last() =~= packed.0);
}


proof fn lemma_utf8_bytes_concat(a: Seq<char>, b: Seq<char>)
    ensures
        utf8_bytes(a + b) == utf8_bytes(a) + utf8_bytes(b),
    decreases b.len(),
{
    if b.len() == 0 {
        assert(a + b =~= a);
    } else {
        lemma_utf8_bytes_concat(a, b.drop_last());
        assert((a + b).drop_last() =~= a + b.drop_last());
    }
}

proof fn lemma_pack_sizes(lines: Seq<Seq<char>>)
    ensures
        forall|i: int|
            0 <= i < pack_lines(lines).0.len() ==> utf8_bytes(#[trigger] pack_lines(lines).0[i])
                >= CHUNK_BYTES,
        utf8_bytes(pack_lines(lines).1) >= pack_lines(lines).2,
    decreases lines.len(),
{
    if lines.len() > 0 {
        let prev = pack_lines(lines.drop_last());
        let line = lines.last();
        lemma_pack_sizes(lines.drop_last());
        lemma_utf8_bytes_concat(prev.1, line.push('\n'));
        assert(line.push('\n').drop_last() =~= line);
        if prev.2 + utf8_bytes(line) < CHUNK_BYTES {
            assert(utf8_bytes(Seq::<char>::empty()) == 0);
        }
    }
}

/// Every chunk but the last holds at least `CHUNK_BYTES` bytes of UTF-8 text:
/// a message is never cut into more pieces than the limit asks for.
pub proof fn law_closed_chunks_are_full(message: Seq<char>)
    ensures
        forall|i: int|
            0 <= i < chunks_of(message).len() - 1 ==> utf8_bytes(#[trigger] chunks_of(message)[i])
                >= CHUNK_BYTES,
{
    lemma_pack_sizes(split_lines(message));
}

/// The UTF-8 bytes of the text of `lines`, line feeds not counted.
pub open spec fn line_bytes(lines: Seq<Seq<char>>) -> nat
    decreases lines.len(),
{
    if lines.len() == 0 {
        0
    } else {
        line_bytes(lines.drop_last()) + utf8_bytes(lines.last())
    }
}

/// For each closed chunk, the number of lines packed when it was closed.
pub open spec fn pack_ends(lines: Seq<Seq<char>>) -> Seq<int>
    decreases lines.len(),
{
    if lines.len() == 0 {
        Seq::empty()
    } else {
        let prev = pack_lines(lines.drop_last());
        if prev.2 + utf8_bytes(lines.last()) >= CHUNK_BYTES {
            pack_ends(lines.drop_last()).push(lines.len() as int)
        } else {
            pack_ends(lines.drop_last())
        }
    }
}

/// The first line of chunk `j`, for chunks closed at `ends`.
pub open spec fn chunk_start(ends: Seq<int>, j: int) -> int {
    if j == 0 {
        0
    } else {
        ends[j - 1]
    }
}

/// Chunk `chunk` is the run of lines `start..end` of `lines`, each followed
/// by a line feed, whose line text reached the limit with its last line and
/// not before.
#[verifier::opaque]
pub open spec fn closed_run(lines: Seq<Seq<char>>, start: int, end: int, chunk: Seq<char>) -> bool {
    &&& 0 <= start < end <= lines.len()
    &&& chunk == terminated(lines.subrange(start, end))
    &&& line_bytes(lines.subrange(start, end)) >= CHUNK_BYTES
    &&& line_bytes(lines.subrange(start, end - 1)) < CHUNK_BYTES
}

/// What packing `lines` keeps: the closed chunks are consecutive runs of
/// whole lines (`closed_run`); the chunk being filled is the run of the
/// remaining lines, each followed by a line feed, below the limit.
pub open spec fn packed_in_runs(lines: Seq<Seq<char>>) -> bool {
    let p = pack_lines(lines);
    let ends = pack_ends(lines);
    let open_start = chunk_start(ends, ends.len() as int);
    &&& p.0.len() == ends.len()
    &&& forall|j: int|
        #![trigger ends[j]]
        0 <= j < ends.len() ==> closed_run(lines, chunk_start(ends, j), ends[j], p.0[j])
    &&& 0 <= open_start <= lines.len()
    &&& p.1 == terminated(lines.subrange(open_start, lines.len() as int))
    &&& p.2 == line_bytes(lines.subrange(open_start, lines.len() as int))
    &&& p.2 < CHUNK_BYTES
}

proof fn lemma_closed_run_extends(lines: Seq<Seq<char>>, start: int, end: int, chunk: Seq<char>)
    requires
        lines.len() > 0,
        closed_run(lines.drop_last(), start, end, chunk),
    ensures
        closed_run(lines, start, end, chunk),
{
    reveal(closed_run);
    assert(lines.subrange(start, end) =~= lines.drop_last().subrange(start, end));
    assert(lines.subrange(start, end - 1) =~= lines.drop_last().subrange(start, end - 1));
}

proof fn lemma_run_push(lines: Seq<Seq<char>>, o: int)
    requires
        lines.len() > 0,
        0 <= o <= lines.len() - 1,
    ensures
        terminated(lines.subrange(o, lines.len() as int)) == terminated(
            lines.drop_last().subrange(o, lines.len() - 1),
        ) + lines.last().push('\n'),
        line_bytes(lines.subrange(o, lines.len() as int)) == line_bytes(
            lines.drop_last().subrange(o, lines.len() - 1),
        ) + utf8_bytes(lines.last()),
        lines.subrange(o, lines.len() - 1) == lines.drop_last().subrange(o, lines.len() - 1),
{
    let run = lines.subrange(o, lines.len() as int);
    assert(run.drop_last() =~= lines.drop_last().subrange(o, lines.len() - 1));
    assert(lines.subrange(o, lines.len() - 1) =~= lines.drop_last().subrange(o, lines.len() - 1));
}

proof fn lemma_packed_step(lines: Seq<Seq<char>>)
    requires
        lines.len() > 0,
        packed_in_runs(lines.drop_last()),
    ensures
        packed_in_runs(lines),
{
    let dl = lines.drop_last();
    let n = lines.len() as int;
    let prev = pack_lines(dl);
    let prev_ends = pack_ends(dl);
    let o = chunk_start(prev_ends, prev_ends.len() as int);
    let line = lines.last();
    lemma_run_push(lines, o);
    let p = pack_lines(lines);
    let ends = pack_ends(lines);
    assert(p == pack_step(prev, line));
    if prev.2 + utf8_bytes(line) >= CHUNK_BYTES {
        assert(ends == prev_ends.push(n));
        assert(lines.subrange(n, n) =~= Seq::<Seq<char>>::empty());
        assert(closed_run(lines, o, n, p.0[prev_ends.len() as int])) by {
            reveal(closed_run);
        }
        assert forall|j: int| #![trigger ends[j]] 0 <= j < ends.len() implies closed_run(
            lines,
            chunk_start(ends, j),
            ends[j],
            p.0[j],
        ) by {
            if j < prev_ends.len() {
                assert(ends[j] == prev_ends[j]);
                assert(chunk_start(ends, j) == chunk_start(prev_ends, j));
                assert(p.0[j] == prev.0[j]);
                lemma_closed_run_extends(lines, chunk_start(prev_ends, j), prev_ends[j], prev.0[j]);
            }
        }
    } else {
        assert(ends == prev_ends);
        assert forall|j: int| #![trigger ends[j]] 0 <= j < ends.len() implies closed_run(
            lines,
            chunk_start(ends, j),
            ends[j],
            p.0[j],
        ) by {
            assert(ends[j] == prev_ends[j]);
            lemma_closed_run_extends(lines, chunk_start(prev_ends, j), prev_ends[j], prev.0[j]);
        }
    }
}

proof fn lemma_packed_in_runs(lines: Seq<Seq<char>>)
    ensures
        packed_in_runs(lines),
    decreases lines.len(),
{
    if lines.len() == 0 {
        assert(lines.subrange(0, 0) =~= Seq::<Seq<char>>::empty());
    } else {
        lemma_packed_in_runs(lines.drop_last());
        lemma_packed_step(lines);
    }
}

/// How a message is cut: each chunk is a run of consecutive lines of the
/// message (its pieces between line feeds), each line followed by a line
/// feed; the runs follow one another from the first line to the last; every
/// chunk but the last has at least `CHUNK_BYTES` bytes of line text (line
/// feeds not counted), and fewer without its last line; the last chunk has
/// fewer than `CHUNK_BYTES` bytes of line text (and may be empty).
pub proof fn law_chunks_are_runs_of_lines(message: Seq<char>)
    ensures
        ({
            let lines = split_lines(message);
            let chunks = chunks_of(message);
            let ends = pack_ends(lines);
            let last = chunk_start(ends, ends.len() as int);
            &&& chunks.len() == ends.len() + 1
            &&& forall|j: int|
                #![trigger ends[j]]
                0 <= j < ends.len() ==> {
                    &&& 0 <= chunk_start(ends, j) < ends[j] <= lines.len()
                    &&& chunks[j] == terminated(lines.subrange(chunk_start(ends, j), ends[j]))
                    &&& line_bytes(lines.subrange(chunk_start(ends, j), ends[j])) >= CHUNK_BYTES
                    &&& line_bytes(lines.subrange(chunk_start(ends, j), ends[j] - 1))
                        < CHUNK_BYTES
                }
            &&& 0 <= last <= lines.len()
            &&& chunks[ends.len() as int] == terminated(lines.subrange(last, lines.len() as int))
            &&& line_bytes(lines.subrange(last, lines.len() as int)) < CHUNK_BYTES
        }),
{
    let lines = split_lines(message);
    lemma_packed_in_runs(lines);
    let p = pack_lines(lines);
    let ends = pack_ends(lines);
    reveal(closed_run);
    assert forall|j: int| #![trigger ends[j]] 0 <= j < ends.len() implies chunks_of(message)[j]
        == p.0[j] by {}
}

proof fn lemma_encode_push(s: Seq<char>, c: char)
    ensures
        encode_utf8(s.push(c)).len() == encode_utf8(s).len() + encode_scalar(c as u32).len(),
    decreases s.len(),
{
    if s.len() == 0 {
        assert(s.push(c).drop_first() =~= Seq::<char>::empty());
        assert(encode_utf8(Seq::<char>::empty()) =~= Seq::<u8>::empty());
    } else {
        lemma_encode_push(s.drop_first(), c);
        assert(s.push(c).drop_first() =~= s.drop_first().push(c));
    }
}

/// A character takes as many bytes as its UTF-8 encoding: 1 below U+0080,
/// 2 up to U+07FF, 3 up to U+FFFF, 4 above.
pub proof fn law_utf8_width_is_encoding_length(c: char)
    ensures
        utf8_width(c) == encode_scalar(c as u32).len(),
        (c as u32) <= 0x7F ==> utf8_width(c) == 1,
        0x80 <= (c as u32) <= 0x7FF ==> utf8_width(c) == 2,
        0x800 <= (c as u32) <= 0xFFFF ==> utf8_width(c) == 3,
        0x10000 <= (c as u32) ==> utf8_width(c) == 4,
{
    char_is_scalar(c);
}

/// The bytes counted for a text are those of its UTF-8 encoding, which is
/// what `str::len` returns: `utf8_bytes(s@) == s.spec_bytes().len()`.
pub proof fn law_utf8_bytes_is_encoding_length(s: Seq<char>)
    ensures
        utf8_bytes(s) == encode_utf8(s).len(),
    decreases s.len(),
{
    if s.len() == 0 {
        assert(encode_utf8(s) =~= Seq::<u8>::empty());
    } else {
        law_utf8_bytes_is_encoding_length(s.drop_last());
        lemma_encode_push(s.drop_last(), s.last());
        law_utf8_width_is_encoding_length(s.last());
        assert(s.drop_last().push(s.last()) =~= s);
    }
}

/// `n`, or the largest `usize` where `n` is larger.
pub open spec fn capped(n: nat) -> nat {
    if n > usize::MAX {
        usize::MAX as nat
    } else {
        n
    }
}

/// Number of bytes in the UTF-8 encoding of `c`.
pub fn utf8_width_of(c: char) -> (w: usize)
    ensures
        w == utf8_width(c),
{
    let v = c as u32;
    if v < 0x80 {
        1
    } else if v < 0x800 {
        2
    } else if v < 0x10000 {
        3
    } else {
        4
    }
}

fn pack_line(
    sent: &mut Vec<String>,
    pending: &mut String,
    count: &mut usize,
    line: &str,
    line_bytes: usize,
)
    requires
        *old(count) < CHUNK_BYTES,
        line_bytes == capped(utf8_bytes(line@)),
    ensures
        *final(count) < CHUNK_BYTES,
        (final(sent).deep_view(), final(pending)@, *final(count) as nat) == pack_step(
            (old(sent).deep_view(), old(pending)@, *old(count) as nat),
            line@,
        ),
{
    pending.append(line);
    pending.append("\n");
    proof {
        reveal_strlit("\n");
    }
    let total = count.saturating_add(line_bytes);
    if total >= CHUNK_BYTES {
        let mut full = String::new();
        std::mem::swap(&mut full, pending);
        let ghost before = sent.deep_view();
        sent.push(full);
        assert(sent.deep_view() =~= before.push(full@));
        *count = 0;
    } else {
        *count = total;
    }
    assert(old(pending)@ + line@ + "\n"@ =~= old(pending)@ + line@.push('\n'));
}

/// Cuts `message` into the chunks it is sent in: each line of the message
/// goes, with its line feed, into the chunk being filled, and that chunk is
/// closed once the UTF-8 bytes of the lines it holds reach `CHUNK_BYTES`;
/// the chunk being filled when the lines run out comes last.
pub fn chunk_message(message: &str) -> (chunks: Vec<String>)
    ensures
        chunks.deep_view() == chunks_of(message@),
{
    let n = message.unicode_len();
    let mut sent: Vec<String> = Vec::new();
    let mut pending = String::new();
    let mut count: usize = 0;
    let mut line_bytes: usize = 0;
    let mut start: usize = 0;
    let mut i: usize = 0;
    let ghost mut done: Seq<Seq<char>> = Seq::empty();
    proof {
        assert(message@.take(0) =~= Seq::<char>::empty());
        assert(message@.subrange(0, 0) =~= Seq::<char>::empty());
        assert(done.push(Seq::<char>::empty()) =~= seq![Seq::<char>::empty()]);
        assert(sent.deep_view() =~= Seq::<Seq<char>>::empty());
    }
    while i < n
        invariant
            n == message@.len(),
            start <= i <= n,
            split_lines(message@.take(i as int)) == done.push(
                message@.subrange(start as int, i as int),
            ),
            (sent.deep_view(), pending@, count as nat) == pack_lines(done),
            count < CHUNK_BYTES,
            line_bytes == capped(utf8_bytes(message@.subrange(start as int, i as int))),
        decreases n - i,
    {
        let c = message.get_char(i);
        let ghost cur = message@.subrange(start as int, i as int);
        assert(message@.take(i + 1).drop_last() =~= message@.take(i as int));
        assert(message@.take(i + 1).last() == c);
        if c == '\n' {
            let line = message.substring_char(start, i);
            pack_line(&mut sent, &mut pending, &mut count, line, line_bytes);
            proof {
                assert(done.push(cur).drop_last() =~= done);
                done = done.push(cur);
                assert(message@.subrange(i + 1, i + 1) =~= Seq::<char>::empty());
            }
            start = i + 1;
            line_bytes = 0;
        } else {
            let w = utf8_width_of(c);
            proof {
                assert(message@.subrange(start as int, i + 1) =~= cur.push(c));
                assert(message@.subrange(start as int, i + 1).drop_last() =~= cur);
                assert(done.push(cur).update(done.len() as int, cur.push(c)) =~= done.push(
                    message@.subrange(start as int, i + 1),
                ));
            }
            line_bytes = line_bytes.saturating_add(w);
        }
        i = i + 1;
    }
    let line = message.substring_char(start, n);
    let ghost last = message@.subrange(start as int, n as int);
    pack_line(&mut sent, &mut pending, &mut count, line, line_bytes);
    let ghost before = sent.deep_view();
    sent.push(pending);
    proof {
        assert(message@.take(n as int) =~= message@);
        assert(done.push(last).drop_last() =~= done);
        assert(sent.deep_view() =~= before.push(pending@));
    }
    sent
}

} // verus!
