//! Server-Sent-Events framing: reassembling complete logical lines from
//! an unbounded sequence of byte fragments, extracting `data:` payloads,
//! and recognizing the terminal sentinel.
//!
//! The wire data is not framed by message boundaries aligned to network
//! reads: one line can be split across two reads, and one read can hold
//! many lines plus a trailing partial line. The functions here keep the
//! unterminated tail in a buffer so that no content is lost or
//! duplicated across fragment boundaries.
use vstd::prelude::*;

verus! {

/// The position of the first line feed in `s`, or `s.len()` when `s`
/// holds none.
pub open spec fn first_nl(s: Seq<u8>) -> int
    decreases s.len(),
{
    if s.len() == 0 {
        0
    } else if s[0] == 10 {
        0
    } else {
        1 + first_nl(s.skip(1))
    }
}

/// `first_nl` points at the first line feed: it is in bounds exactly
/// when a line feed exists, it points at a line feed, and nothing
/// before it is one.
pub proof fn lemma_first_nl(s: Seq<u8>)
    ensures
        0 <= first_nl(s) <= s.len(),
        first_nl(s) < s.len() ==> s[first_nl(s)] == 10,
        forall|j: int| 0 <= j < first_nl(s) ==> s[j] != 10,
    decreases s.len(),
{
    if s.len() == 0 {
    } else if s[0] == 10 {
    } else {
        lemma_first_nl(s.skip(1));
        assert forall|j: int| 0 <= j < first_nl(s) implies s[j] != 10 by {
            if j > 0 {
                assert(s.skip(1)[j - 1] == s[j]);
            }
        }
    }
}

/// A position that holds a line feed and has none before it is
/// `first_nl`.
pub proof fn lemma_first_nl_unique(s: Seq<u8>, i: int)
    requires
        0 <= i <= s.len(),
        i < s.len() ==> s[i] == 10,
        forall|j: int| 0 <= j < i ==> s[j] != 10,
    ensures
        first_nl(s) == i,
{
    lemma_first_nl(s);
    let f = first_nl(s);
    if f < i {
        assert(s[f] != 10);
    }
    if i < f {
        assert(s[i] != 10);
    }
}

/// A line with its trailing carriage return removed, if it carries one
/// (the protocol terminates lines with either `\n` or `\r\n`).
pub open spec fn strip_cr(l: Seq<u8>) -> Seq<u8> {
    if l.len() > 0 && l[l.len() - 1] == 13 {
        l.take(l.len() - 1)
    } else {
        l
    }
}

/// All fully terminated lines of `s`, in order, each without its line
/// terminator.
pub open spec fn complete_lines(s: Seq<u8>) -> Seq<Seq<u8>>
    decreases s.len(),
{
    let i = first_nl(s);
    if 0 <= i < s.len() {
        seq![strip_cr(s.take(i))] + complete_lines(s.skip(i + 1))
    } else {
        Seq::empty()
    }
}

/// The unterminated tail of `s`: what follows its last line feed.
pub open spec fn line_rest(s: Seq<u8>) -> Seq<u8>
    decreases s.len(),
{
    let i = first_nl(s);
    if 0 <= i < s.len() {
        line_rest(s.skip(i + 1))
    } else {
        s
    }
}

/// The unterminated tail holds no line feed.
pub proof fn lemma_line_rest_no_nl(s: Seq<u8>)
    ensures
        forall|j: int| 0 <= j < line_rest(s).len() ==> line_rest(s)[j] != 10,
    decreases s.len(),
{
    lemma_first_nl(s);
    let i = first_nl(s);
    if 0 <= i < s.len() {
        lemma_line_rest_no_nl(s.skip(i + 1));
        assert(line_rest(s) == line_rest(s.skip(i + 1)));
    } else {
        assert(line_rest(s) == s);
        assert forall|j: int| 0 <= j < line_rest(s).len() implies line_rest(s)[j] != 10 by {
            assert(s[j] != 10);
        }
    }
}

/// Reassembly is independent of how the input is split into fragments:
/// feeding `a` and then `b`, carrying the unterminated tail of `a` over
/// to the next read, yields exactly the lines and the tail of the
/// concatenation `a + b`. No line is lost, duplicated, or reordered by
/// a fragment boundary.
pub proof fn lemma_fragmentation_independent(a: Seq<u8>, b: Seq<u8>)
    ensures
        complete_lines(a + b) == complete_lines(a) + complete_lines(line_rest(a) + b),
        line_rest(a + b) == line_rest(line_rest(a) + b),
    decreases a.len(),
{
    lemma_first_nl(a);
    let i = first_nl(a);
    if 0 <= i < a.len() {
        assert((a + b)[i] == a[i]);
        assert forall|j: int| 0 <= j < i implies (a + b)[j] != 10 by {
            assert((a + b)[j] == a[j]);
        }
        lemma_first_nl_unique(a + b, i);
        assert((a + b).take(i) =~= a.take(i));
        assert((a + b).skip(i + 1) =~= a.skip(i + 1) + b);
        lemma_fragmentation_independent(a.skip(i + 1), b);
        assert(complete_lines(a + b) =~= complete_lines(a) + complete_lines(
            line_rest(a) + b,
        ));
    } else {
        assert(i == a.len());
        assert(line_rest(a) == a);
        assert(line_rest(a) + b =~= a + b);
        assert(complete_lines(a) + complete_lines(a + b) =~= complete_lines(a + b));
    }
}

/// The concatenation of a sequence of network fragments: the wire text
/// they carry together.
pub open spec fn concat_fragments(frags: Seq<Seq<u8>>) -> Seq<u8>
    decreases frags.len(),
{
    if frags.len() == 0 {
        Seq::<u8>::empty()
    } else {
        concat_fragments(frags.drop_last()) + frags.last()
    }
}

/// What feeding the fragments one by one yields: the lines consumed in
/// total, and the tail carried in the buffer at the end. Each step
/// appends one fragment to the carried tail and consumes the fully
/// terminated lines, as the decoder does.
pub open spec fn fold_fragments(frags: Seq<Seq<u8>>) -> (Seq<Seq<u8>>, Seq<u8>)
    decreases frags.len(),
{
    if frags.len() == 0 {
        (Seq::<Seq<u8>>::empty(), Seq::<u8>::empty())
    } else {
        let prev = fold_fragments(frags.drop_last());
        (
            prev.0 + complete_lines(prev.1 + frags.last()),
            line_rest(prev.1 + frags.last()),
        )
    }
}

/// Reassembly is independent of the fragmentation, however many pieces
/// the wire text arrives in: feeding any sequence of fragments one by
/// one consumes exactly the lines of their concatenation, in order, and
/// buffers exactly its unterminated tail.
pub proof fn lemma_any_fragmentation(frags: Seq<Seq<u8>>)
    ensures
        fold_fragments(frags).0 == complete_lines(concat_fragments(frags)),
        fold_fragments(frags).1 == line_rest(concat_fragments(frags)),
    decreases frags.len(),
{
    if frags.len() == 0 {
        assert(fold_fragments(frags).0 =~= complete_lines(concat_fragments(frags)));
        assert(fold_fragments(frags).1 =~= line_rest(concat_fragments(frags)));
    } else {
        let front = frags.drop_last();
        let m = frags.last();
        lemma_any_fragmentation(front);
        let whole = concat_fragments(front);
        lemma_fragmentation_independent(whole, m);
    }
}

/// The wire text of a sequence of lines, each terminated by a line
/// feed.
pub open spec fn join_lines(lines: Seq<Seq<u8>>) -> Seq<u8>
    decreases lines.len(),
{
    if lines.len() == 0 {
        Seq::<u8>::empty()
    } else {
        join_lines(lines.drop_last()) + lines.last() + seq![10u8]
    }
}

/// A line as a sender forms it: no line feed inside and no trailing
/// carriage return.
pub open spec fn plain_line(l: Seq<u8>) -> bool {
    (forall|j: int| 0 <= j < l.len() ==> l[j] != 10) && (l.len() == 0 || l[l.len() - 1] != 13)
}

/// Round trip of the framing: decoding the wire text of any sequence of
/// lines recovers exactly those lines — none lost, none duplicated,
/// none reordered — and leaves nothing buffered.
pub proof fn lemma_join_lines_round_trip(lines: Seq<Seq<u8>>)
    requires
        forall|k: int| 0 <= k < lines.len() ==> plain_line(#[trigger] lines[k]),
    ensures
        complete_lines(join_lines(lines)) == lines,
        line_rest(join_lines(lines)) == Seq::<u8>::empty(),
    decreases lines.len(),
{
    if lines.len() == 0 {
        assert(complete_lines(join_lines(lines)) =~= lines);
    } else {
        let front = lines.drop_last();
        let m = lines.last();
        assert(plain_line(m));
        assert(forall|k: int| 0 <= k < front.len() ==> plain_line(#[trigger] front[k]));
        lemma_join_lines_round_trip(front);
        let s = join_lines(front);
        let t = m + seq![10u8];
        lemma_fragmentation_independent(s, t);
        assert(line_rest(s) + t =~= t);
        assert(t[m.len() as int] == 10);
        assert forall|j: int| 0 <= j < m.len() implies t[j] != 10 by {
            assert(t[j] == m[j]);
        }
        lemma_first_nl_unique(t, m.len() as int);
        assert(t.take(m.len() as int) =~= m);
        assert(strip_cr(m) == m);
        assert(t.skip(m.len() as int + 1) =~= Seq::<u8>::empty());
        assert(complete_lines(Seq::<u8>::empty()) =~= Seq::<Seq<u8>>::empty());
        assert(line_rest(Seq::<u8>::empty()) =~= Seq::<u8>::empty());
        assert(complete_lines(t) =~= seq![m]);
        assert(line_rest(t) == line_rest(t.skip(m.len() as int + 1)));
        assert(join_lines(lines) =~= s + t);
        assert(complete_lines(s) + complete_lines(t) =~= lines);
        assert(complete_lines(join_lines(lines)) == complete_lines(s + t));
        assert(line_rest(join_lines(lines)) == line_rest(s + t));
    }
}

/// Copies `v[from..to]` into a fresh vector.
fn copy_range(v: &Vec<u8>, from: usize, to: usize) -> (r: Vec<u8>)
    requires
        from <= to <= v@.len(),
    ensures
        r@ == v@.subrange(from as int, to as int),
{
    vstd::slice::slice_to_vec(vstd::slice::slice_subrange(v.as_slice(), from, to))
}

/// Takes every fully terminated line out of `buf`, in order and without
/// its terminator, and leaves only the unterminated tail in `buf`. The
/// tail holds no line feed: no fully terminated line is ever withheld.
pub fn take_lines(buf: &mut Vec<u8>) -> (lines: Vec<Vec<u8>>)
    ensures
        lines@.map_values(|l: Vec<u8>| l@) == complete_lines(old(buf)@),
        final (buf)@ == line_rest(old(buf)@),
        forall|j: int| 0 <= j < final (buf)@.len() ==> final (buf)@[j] != 10,
{
    proof {
        lemma_line_rest_no_nl(old(buf)@);
    }
    let ghost orig = buf@;
    let mut lines: Vec<Vec<u8>> = Vec::new();
    let mut start: usize = 0;
    let mut i: usize = 0;
    proof {
        assert(orig.skip(0) =~= orig);
        assert(lines@.map_values(|l: Vec<u8>| l@) + complete_lines(orig) =~= complete_lines(orig));
    }
    while i < buf.len()
        invariant
            start <= i <= buf@.len(),
            buf@ == orig,
            complete_lines(orig) == lines@.map_values(|l: Vec<u8>| l@) + complete_lines(
                orig.skip(start as int),
            ),
            line_rest(orig) == line_rest(orig.skip(start as int)),
            forall|j: int| start <= j < i ==> orig[j] != 10,
        decreases buf@.len() - i,
    {
        if buf[i] == 10 {
            let ghost tail = orig.skip(start as int);
            proof {
                assert(tail[i - start] == orig[i as int]);
                assert forall|j: int| 0 <= j < i - start implies tail[j] != 10 by {
                    assert(tail[j] == orig[start + j]);
                }
                lemma_first_nl_unique(tail, i - start);
            }
            let end = if i > start && buf[i - 1] == 13 {
                i - 1
            } else {
                i
            };
            let line = copy_range(buf, start, end);
            proof {
                assert(tail.take(i - start) =~= orig.subrange(start as int, i as int));
                if i > start && orig[i - 1] == 13 {
                    assert(strip_cr(tail.take(i - start)) =~= orig.subrange(
                        start as int,
                        i - 1,
                    ));
                } else {
                    assert(strip_cr(tail.take(i - start)) =~= orig.subrange(
                        start as int,
                        i as int,
                    ));
                }
                assert(line@ == strip_cr(tail.take(i - start)));
                assert(tail.skip(i - start + 1) =~= orig.skip(i + 1));
                assert(lines@.push(line).map_values(|l: Vec<u8>| l@) =~= lines@.map_values(
                    |l: Vec<u8>| l@,
                ).push(line@));
                assert(lines@.map_values(|l: Vec<u8>| l@).push(line@) + complete_lines(
                    orig.skip(i + 1),
                ) =~= lines@.map_values(|l: Vec<u8>| l@) + (seq![line@] + complete_lines(
                    orig.skip(i + 1),
                )));
            }
            lines.push(line);
            start = i + 1;
        }
        i += 1;
    }
    proof {
        let tail = orig.skip(start as int);
        assert forall|j: int| 0 <= j < tail.len() implies tail[j] != 10 by {
            assert(tail[j] == orig[start + j]);
        }
        lemma_first_nl_unique(tail, tail.len() as int);
    }
    let rest = copy_range(buf, start, buf.len());
    proof {
        assert(rest@ =~= orig.skip(start as int));
    }
    *buf = rest;
    lines
}

/// The `data: ` prefix that marks an event line.
pub open spec fn spec_data_prefix() -> Seq<u8> {
    seq![100u8, 97u8, 116u8, 97u8, 58u8, 32u8]
}

/// The `[DONE]` terminal sentinel.
pub open spec fn spec_done_payload() -> Seq<u8> {
    seq![91u8, 68u8, 79u8, 78u8, 69u8, 93u8]
}

/// The payload of an event line: what follows the `data: ` prefix, or
/// nothing for a line without the prefix (blank keep-alive lines,
/// comment lines).
pub open spec fn payload_of(line: Seq<u8>) -> Option<Seq<u8>> {
    if line.len() >= 6 && line.take(6) == spec_data_prefix() {
        Some(line.skip(6))
    } else {
        None
    }
}

/// Extracts the payload of an event line, or returns nothing for a
/// line that does not carry the `data: ` prefix.
pub fn extract_payload(line: &Vec<u8>) -> (r: Option<Vec<u8>>)
    ensures
        r is Some <==> payload_of(line@) is Some,
        r matches Some(p) ==> payload_of(line@) == Some(p@),
{
    // the prefix bytes spell "data: "
    if line.len() >= 6 && line[0] == 100 && line[1] == 97 && line[2] == 116 && line[3] == 97
        && line[4] == 58 && line[5] == 32 {
        proof {
            assert(line@.take(6) =~= spec_data_prefix());
        }
        Some(copy_range(line, 6, line.len()))
    } else {
        proof {
            if line@.len() >= 6 && line@.take(6) == spec_data_prefix() {
                assert(line@[0] == line@.take(6)[0]);
                assert(line@[1] == line@.take(6)[1]);
                assert(line@[2] == line@.take(6)[2]);
                assert(line@[3] == line@.take(6)[3]);
                assert(line@[4] == line@.take(6)[4]);
                assert(line@[5] == line@.take(6)[5]);
            }
        }
        None
    }
}

/// Whether a payload is the `[DONE]` terminal sentinel.
pub fn is_done_payload(payload: &Vec<u8>) -> (r: bool)
    ensures
        r == (payload@ == spec_done_payload()),
{
    // the sentinel bytes spell "[DONE]"
    let r = payload.len() == 6 && payload[0] == 91 && payload[1] == 68 && payload[2] == 79
        && payload[3] == 78 && payload[4] == 69 && payload[5] == 93;
    proof {
        if r {
            assert(payload@ =~= spec_done_payload());
        }
        if payload@ == spec_done_payload() {
            assert(payload@[0] == 91u8 && payload@[1] == 68u8 && payload@[2] == 79u8 && payload@[3]
                == 78u8 && payload@[4] == 69u8 && payload@[5] == 93u8);
        }
    }
    r
}

} // verus!
