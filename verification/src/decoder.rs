//! The streaming decoder: a stateful consumer of byte fragments that
//! emits normalized incremental updates in arrival order, recognizes
//! the terminal sentinel, and survives malformed event payloads.
//!
//! The decoder buffers raw bytes, not decoded text: a multi-byte
//! character split across two network reads is reassembled intact
//! before any payload is decoded. A payload that still holds invalid
//! UTF-8 after reassembly is not decoded with replacement characters;
//! it fails the JSON decode and is discarded like any other malformed
//! payload, without stopping the stream.
use vstd::prelude::*;

use crate::json::parse_stream_chunk;
use crate::json::spec_stream_chunk;
use crate::model::StreamChoice;
use crate::model::StreamChunk;
use crate::model::StreamData;
use crate::model::StreamDataView;
use crate::sse::complete_lines;
use crate::sse::extract_payload;
use crate::sse::is_done_payload;
use crate::sse::line_rest;
use crate::sse::payload_of;
use crate::sse::spec_done_payload;
use crate::sse::take_lines;

verus! {

/// The normalized update of one decoded event: the first choice's
/// delta, or nothing for an event without choices.
pub open spec fn spec_normalize(c: StreamChunk) -> Option<StreamData> {
    if c.choices@.len() == 0 {
        None
    } else {
        Some(
            StreamData {
                content: c.choices@[0].delta.content,
                reasoning_content: c.choices@[0].delta.reasoning_content,
                done: false,
            },
        )
    }
}

/// The one terminal update of a stream: no deltas, `done` set.
pub open spec fn spec_terminal_view() -> StreamDataView {
    StreamDataView { content: None, reasoning_content: None, done: true }
}

/// Maps one decoded event to its normalized update: the first choice's
/// delta fields, never terminal. An event without choices produces no
/// update.
pub fn normalize_chunk(c: &StreamChunk) -> (r: Option<StreamData>)
    ensures
        r == spec_normalize(*c),
{
    if c.choices.len() == 0 {
        None
    } else {
        let delta = &c.choices[0].delta;
        let content = match &delta.content {
            Some(s) => Some(s.clone()),
            None => None,
        };
        let reasoning_content = match &delta.reasoning_content {
            Some(s) => Some(s.clone()),
            None => None,
        };
        Some(StreamData { content, reasoning_content, done: false })
    }
}

/// Whether a line is a `data:` line whose payload is the terminal
/// sentinel.
pub open spec fn line_is_done(line: Seq<u8>) -> bool {
    payload_of(line) == Some(spec_done_payload())
}

/// Whether any line of the sequence carries the terminal sentinel.
pub open spec fn sees_done(lines: Seq<Seq<u8>>) -> bool {
    exists|k: int| 0 <= k < lines.len() && line_is_done(lines[k])
}

/// What one event payload contributes to the stream: the first
/// choice's deltas of its decoded chunk, or nothing when the payload
/// is not JSON, mismatches the event schema, or decodes to an event
/// without choices.
pub open spec fn spec_update_of_payload(p: Seq<u8>) -> Option<StreamDataView> {
    match spec_stream_chunk(p) {
        None => None,
        Some(c) => if c.choices.len() == 0 {
            None
        } else {
            Some(
                StreamDataView {
                    content: c.choices[0].delta.content,
                    reasoning_content: c.choices[0].delta.reasoning_content,
                    done: false,
                },
            )
        },
    }
}

/// The updates that a sequence of consumed lines yields, in order: one
/// per `data:` line whose payload decodes to an event with choices,
/// until the first `[DONE]` payload, which yields the terminal update
/// and ends the stream; every other line yields nothing.
pub open spec fn spec_updates(lines: Seq<Seq<u8>>) -> Seq<StreamDataView>
    decreases lines.len(),
{
    if lines.len() == 0 {
        Seq::<StreamDataView>::empty()
    } else {
        match payload_of(lines.first()) {
            None => spec_updates(lines.drop_first()),
            Some(p) => {
                if p == spec_done_payload() {
                    seq![spec_terminal_view()]
                } else {
                    match spec_update_of_payload(p) {
                        None => spec_updates(lines.drop_first()),
                        Some(u) => seq![u] + spec_updates(lines.drop_first()),
                    }
                }
            },
        }
    }
}

/// The shape of a stream's updates: an update carries `done` exactly
/// when it is the last one of a line sequence that holds the terminal
/// sentinel; a sentinel-free sequence yields no terminal update, and a
/// sequence with the sentinel ends in exactly one.
pub proof fn lemma_spec_updates_shape(lines: Seq<Seq<u8>>)
    ensures
        sees_done(lines) ==> spec_updates(lines).len() >= 1 && spec_updates(lines).last()
            == spec_terminal_view(),
        forall|k: int|
            0 <= k < spec_updates(lines).len() ==> ((#[trigger] spec_updates(lines)[k]).done
                <==> (sees_done(lines) && k == spec_updates(lines).len() - 1)),
    decreases lines.len(),
{
    if lines.len() == 0 {
        assert(!sees_done(lines));
    } else {
        let rest = lines.drop_first();
        lemma_spec_updates_shape(rest);
        assert forall|k: int| 0 <= k < rest.len() implies rest[k] == lines[k + 1] by {}
        if sees_done(rest) {
            let k = choose|k: int| 0 <= k < rest.len() && line_is_done(rest[k]);
            assert(line_is_done(lines[k + 1]));
            assert(sees_done(lines));
        }
        if sees_done(lines) && !line_is_done(lines.first()) {
            let k = choose|k: int| 0 <= k < lines.len() && line_is_done(lines[k]);
            assert(k >= 1);
            assert(line_is_done(rest[k - 1]));
            assert(sees_done(rest));
        }
        match payload_of(lines.first()) {
            None => {
                assert(!line_is_done(lines.first()));
                assert(spec_updates(lines) == spec_updates(rest));
            },
            Some(p) => {
                if p == spec_done_payload() {
                    assert(line_is_done(lines.first()));
                    assert(sees_done(lines));
                    assert(spec_updates(lines) == seq![spec_terminal_view()]);
                    assert(spec_updates(lines).last() == spec_terminal_view());
                } else {
                    assert(!line_is_done(lines.first()));
                    match spec_update_of_payload(p) {
                        None => {
                            assert(spec_updates(lines) == spec_updates(rest));
                        },
                        Some(u) => {
                            assert(!u.done);
                            let combined = seq![u] + spec_updates(rest);
                            assert(spec_updates(lines) == combined);
                            assert(combined[0] == u);
                            assert forall|k: int|
                                1 <= k < combined.len() implies combined[k] == spec_updates(
                                rest,
                            )[k - 1] by {}
                            if sees_done(rest) {
                                assert(spec_updates(rest).len() >= 1);
                                assert(combined.last() == spec_updates(rest).last());
                            }
                        },
                    }
                }
            },
        }
    }
}

/// Splitting a line sequence at a sentinel-free prefix splits its
/// updates.
proof fn lemma_sees_done_step(lines: Seq<Seq<u8>>)
    requires
        lines.len() > 0,
    ensures
        sees_done(lines) <==> (line_is_done(lines.first()) || sees_done(lines.drop_first())),
{
    let rest = lines.drop_first();
    assert forall|k: int| 0 <= k < rest.len() implies rest[k] == lines[k + 1] by {}
    if sees_done(rest) {
        let k = choose|k: int| 0 <= k < rest.len() && line_is_done(rest[k]);
        assert(line_is_done(lines[k + 1]));
    }
    if sees_done(lines) && !line_is_done(lines.first()) {
        let k = choose|k: int| 0 <= k < lines.len() && line_is_done(lines[k]);
        assert(k >= 1);
        assert(line_is_done(rest[k - 1]));
    }
}

/// Updates compose across a fragment boundary as the decoder does:
/// while the sentinel has not been seen, the updates of consecutively
/// consumed line sequences concatenate; once a sequence holds the
/// sentinel, later lines contribute nothing. With the framing lemmas
/// this makes the whole update sequence independent of how the wire
/// text is split into fragments.
pub proof fn lemma_updates_concat(l1: Seq<Seq<u8>>, l2: Seq<Seq<u8>>)
    ensures
        !sees_done(l1) ==> spec_updates(l1 + l2) == spec_updates(l1) + spec_updates(l2),
        sees_done(l1) ==> spec_updates(l1 + l2) == spec_updates(l1),
    decreases l1.len(),
{
    if l1.len() == 0 {
        assert(!sees_done(l1));
        assert(l1 + l2 =~= l2);
        assert(spec_updates(l1) + spec_updates(l2) =~= spec_updates(l2));
    } else {
        let rest = l1.drop_first();
        lemma_sees_done_step(l1);
        lemma_updates_concat(rest, l2);
        assert((l1 + l2).len() > 0);
        assert((l1 + l2).first() == l1.first());
        assert((l1 + l2).drop_first() =~= rest + l2);
        match payload_of(l1.first()) {
            None => {
                assert(!line_is_done(l1.first()));
            },
            Some(p) => {
                if p == spec_done_payload() {
                    assert(line_is_done(l1.first()));
                    assert(spec_updates(l1 + l2) == seq![spec_terminal_view()]);
                } else {
                    assert(!line_is_done(l1.first()));
                    match spec_update_of_payload(p) {
                        None => {},
                        Some(u) => {
                            if !sees_done(l1) {
                                assert(seq![u] + (spec_updates(rest) + spec_updates(l2)) =~= (
                                seq![u] + spec_updates(rest)) + spec_updates(l2));
                            }
                        },
                    }
                }
            },
        }
    }
}

/// The streaming decoder. It owns the only stateful elements of the
/// streaming path: the unterminated tail of the bytes seen so far, and
/// whether the terminal sentinel has been observed. A fresh decoder is
/// created per streaming call; it is not restartable.
pub struct SseDecoder {
    buffer: Vec<u8>,
    terminated: bool,
}

impl SseDecoder {
    /// The bytes carried over from earlier fragments: the unterminated
    /// tail of everything fed so far.
    pub closed spec fn buffered(&self) -> Seq<u8> {
        self.buffer@
    }

    /// Whether the terminal sentinel has been observed.
    pub closed spec fn is_terminated(&self) -> bool {
        self.terminated
    }

    /// A fresh decoder: nothing buffered, terminal sentinel not seen.
    pub fn new() -> (d: SseDecoder)
        ensures
            d.buffered() == Seq::<u8>::empty(),
            !d.is_terminated(),
    {
        SseDecoder { buffer: Vec::new(), terminated: false }
    }

    /// Consumes one network fragment and returns the normalized updates
    /// it completes, in arrival order.
    ///
    /// The contract pins both the framing and the output exactly: the
    /// fragment is appended to the carried-over tail, every fully
    /// terminated line of that text is consumed, the new unterminated
    /// tail is carried over, and the returned updates are exactly
    /// `spec_updates` of the consumed lines — one update per `data:`
    /// line whose payload decodes to an event with choices, in line
    /// order, cut off by the first `[DONE]` payload, which contributes
    /// the terminal update. The decoder terminates exactly when a
    /// consumed line carries the sentinel; once terminated, further
    /// fragments are ignored and nothing is emitted.
    #[verifier::loop_isolation(false)]
    pub fn feed(&mut self, fragment: &[u8]) -> (updates: Vec<StreamData>)
        ensures
            ({
                let all = old(self).buffered() + fragment@;
                let lines = complete_lines(all);
                &&& old(self).is_terminated() ==> *final (self) == *old(self) && updates@.len()
                    == 0
                &&& !old(self).is_terminated() ==> {
                    &&& final (self).buffered() == line_rest(all)
                    &&& forall|j: int|
                        0 <= j < final (self).buffered().len() ==> final (self).buffered()[j]
                            != 10
                    &&& (final (self).is_terminated() <==> sees_done(lines))
                    &&& updates@.map_values(|u: StreamData| u@) == spec_updates(lines)
                }
            }),
    {
        if self.terminated {
            return Vec::new();
        }
        let mut frag = vstd::slice::slice_to_vec(fragment);
        self.buffer.append(&mut frag);
        let lines = take_lines(&mut self.buffer);
        let ghost lseq = lines@.map_values(|l: Vec<u8>| l@);
        let mut updates: Vec<StreamData> = Vec::new();
        let mut hit_done: bool = false;
        let mut j: usize = 0;
        proof {
            assert(lseq.skip(0) =~= lseq);
            assert(updates@.map_values(|u: StreamData| u@) + spec_updates(lseq) =~= spec_updates(
                lseq,
            ));
        }
        while j < lines.len() && !hit_done
            invariant
                0 <= j <= lines@.len(),
                !hit_done ==> forall|k: int| 0 <= k < j ==> !line_is_done(lseq[k]),
                hit_done ==> sees_done(lseq),
                !hit_done ==> spec_updates(lseq) == updates@.map_values(|u: StreamData| u@)
                    + spec_updates(lseq.skip(j as int)),
                hit_done ==> spec_updates(lseq) == updates@.map_values(|u: StreamData| u@),
            decreases lines@.len() - j,
        {
            proof {
                assert(lseq[j as int] == lines@[j as int]@);
                assert(lseq.skip(j as int).first() == lseq[j as int]);
                assert(lseq.skip(j as int).drop_first() =~= lseq.skip(j + 1));
            }
            let ghost prefix = updates@.map_values(|u: StreamData| u@);
            let line = &lines[j];
            match extract_payload(line) {
                Some(payload) => {
                    if is_done_payload(&payload) {
                        let terminal = StreamData {
                            content: None,
                            reasoning_content: None,
                            done: true,
                        };
                        proof {
                            assert(terminal@ == spec_terminal_view());
                            assert(spec_updates(lseq.skip(j as int)) == seq![
                                spec_terminal_view(),
                            ]);
                            assert(updates@.push(terminal).map_values(|u: StreamData| u@)
                                =~= prefix.push(spec_terminal_view()));
                            assert(prefix + seq![spec_terminal_view()] =~= prefix.push(
                                spec_terminal_view(),
                            ));
                        }
                        updates.push(terminal);
                        hit_done = true;
                    } else {
                        match parse_stream_chunk(&payload) {
                            Some(chunk) => {
                                match normalize_chunk(&chunk) {
                                    Some(u) => {
                                        proof {
                                            assert(chunk@.choices == chunk.choices@.map_values(
                                                |c: StreamChoice| c@,
                                            ));
                                            assert(chunk@.choices.len() > 0);
                                            assert(chunk@.choices[0] == chunk.choices@[0]@);
                                            assert(u@ == StreamDataView {
                                                content: chunk@.choices[0].delta.content,
                                                reasoning_content: chunk@.choices[0]
                                                    .delta
                                                    .reasoning_content,
                                                done: false,
                                            });
                                            assert(spec_update_of_payload(payload@) == Some(u@));
                                            assert(spec_updates(lseq.skip(j as int)) == seq![u@]
                                                + spec_updates(lseq.skip(j + 1)));
                                            assert(updates@.push(u).map_values(
                                                |x: StreamData| x@,
                                            ) =~= prefix.push(u@));
                                            assert(prefix + (seq![u@] + spec_updates(
                                                lseq.skip(j + 1),
                                            )) =~= prefix.push(u@) + spec_updates(
                                                lseq.skip(j + 1),
                                            ));
                                        }
                                        updates.push(u);
                                    },
                                    None => {
                                        proof {
                                            assert(chunk@.choices.len() == 0);
                                            assert(spec_update_of_payload(payload@) is None);
                                        }
                                    },
                                }
                            },
                            None => {
                                proof {
                                    assert(spec_update_of_payload(payload@) is None);
                                }
                            },
                        }
                    }
                },
                None => {},
            }
            j += 1;
        }
        proof {
            if !hit_done {
                assert(j == lines@.len());
                assert(lseq.skip(j as int) =~= Seq::<Seq<u8>>::empty());
                assert(updates@.map_values(|u: StreamData| u@) + Seq::<StreamDataView>::empty()
                    =~= updates@.map_values(|u: StreamData| u@));
                assert(!sees_done(lseq));
            }
        }
        self.terminated = hit_done;
        updates
    }
}

} // verus!
