//! The output relay: line-buffering of a byte stream.
//!
//! The tool's stdout and stderr arrive as byte chunks of arbitrary size. The
//! relay splits them on newline boundaries and produces one [`OutputEvent`]
//! per complete line, as soon as the line is complete, in stream order. A
//! line's terminating newline is not part of the event; a carriage return
//! directly before the newline is dropped as well. Whatever trails the last
//! newline when the stream ends is delivered as one final line, unaltered.

use vstd::prelude::*;

use crate::event::OutputEvent;
use crate::event::StreamKind;

verus! {

/// The line feed byte that ends a line.
pub const NL_BYTE: u8 = 10;

/// The carriage return byte, dropped when it stands directly before a line feed.
pub const CR_BYTE: u8 = 13;

/// The content of a line whose raw bytes (before the newline) are `s`:
/// one trailing carriage return is dropped.
pub open spec fn line_body(s: Seq<u8>) -> Seq<u8> {
    if s.len() > 0 && s.last() == CR_BYTE {
        s.drop_last()
    } else {
        s
    }
}

/// The complete lines found when the bytes `s` arrive while `cur` is the
/// unfinished line carried over from earlier input.
pub open spec fn split_from(s: Seq<u8>, cur: Seq<u8>) -> Seq<Seq<u8>>
    decreases s.len(),
{
    if s.len() == 0 {
        Seq::empty()
    } else if s[0] == NL_BYTE {
        seq![line_body(cur)] + split_from(s.skip(1), Seq::empty())
    } else {
        split_from(s.skip(1), cur.push(s[0]))
    }
}

/// The unfinished line left over after the bytes `s` arrive while `cur` is
/// the unfinished line carried over from earlier input.
pub open spec fn rest_from(s: Seq<u8>, cur: Seq<u8>) -> Seq<u8>
    decreases s.len(),
{
    if s.len() == 0 {
        cur
    } else if s[0] == NL_BYTE {
        rest_from(s.skip(1), Seq::empty())
    } else {
        rest_from(s.skip(1), cur.push(s[0]))
    }
}

/// The complete lines of a whole stream, from its start.
pub open spec fn complete_lines(s: Seq<u8>) -> Seq<Seq<u8>> {
    split_from(s, Seq::empty())
}

/// Every line a whole stream yields once it has ended: the complete lines,
/// then the unterminated tail if there is one.
pub open spec fn all_lines(s: Seq<u8>) -> Seq<Seq<u8>> {
    if rest_from(s, Seq::empty()).len() == 0 {
        complete_lines(s)
    } else {
        complete_lines(s) + seq![rest_from(s, Seq::empty())]
    }
}

/// Splitting composes over concatenation: feeding `s` and then `t` yields the
/// same lines, in the same order, as feeding `s + t` at once, and leaves the
/// same unfinished tail. This is what lets the relay process a stream chunk
/// by chunk without ever tearing or reordering a line.
pub proof fn lemma_split_compose(s: Seq<u8>, t: Seq<u8>, cur: Seq<u8>)
    ensures
        split_from(s + t, cur) == split_from(s, cur) + split_from(t, rest_from(s, cur)),
        rest_from(s + t, cur) == rest_from(t, rest_from(s, cur)),
    decreases s.len(),
{
    if s.len() == 0 {
        assert(s + t =~= t);
        assert(split_from(s, cur) + split_from(t, cur) =~= split_from(t, cur));
    } else {
        assert((s + t).skip(1) =~= s.skip(1) + t);
        if s[0] == NL_BYTE {
            lemma_split_compose(s.skip(1), t, Seq::empty());
            assert(seq![line_body(cur)] + (split_from(s.skip(1), Seq::empty()) + split_from(
                t,
                rest_from(s.skip(1), Seq::empty()),
            )) =~= (seq![line_body(cur)] + split_from(s.skip(1), Seq::empty())) + split_from(
                t,
                rest_from(s.skip(1), Seq::empty()),
            ));
        } else {
            lemma_split_compose(s.skip(1), t, cur.push(s[0]));
        }
    }
}

/// What one single byte does to the split: a newline finishes the line in
/// progress, any other byte extends it.
pub proof fn lemma_split_single(b: u8, cur: Seq<u8>)
    ensures
        split_from(seq![b], cur) == (if b == NL_BYTE {
            seq![line_body(cur)]
        } else {
            Seq::<Seq<u8>>::empty()
        }),
        rest_from(seq![b], cur) == (if b == NL_BYTE {
            Seq::<u8>::empty()
        } else {
            cur.push(b)
        }),
{
    let s = seq![b];
    assert(s.skip(1) =~= Seq::<u8>::empty());
    if b == NL_BYTE {
        assert(split_from(Seq::<u8>::empty(), Seq::<u8>::empty()) == Seq::<Seq<u8>>::empty());
        assert(rest_from(Seq::<u8>::empty(), Seq::<u8>::empty()) == Seq::<u8>::empty());
        assert(seq![line_body(cur)] + Seq::<Seq<u8>>::empty() =~= seq![line_body(cur)]);
    } else {
        assert(split_from(Seq::<u8>::empty(), cur.push(b)) == Seq::<Seq<u8>>::empty());
        assert(rest_from(Seq::<u8>::empty(), cur.push(b)) == cur.push(b));
    }
}

/// Line buffer for one captured stream. Chunks of bytes go in; one event per
/// complete line comes out, tagged with the stream the buffer was made for.
pub struct LineBuffer {
    /// The stream this buffer relays.
    pub kind: StreamKind,
    /// Bytes of the line in progress: everything after the last newline seen.
    pub pending: Vec<u8>,
}

impl LineBuffer {
    /// A fresh buffer for one stream, with no input seen yet.
    pub fn new(kind: StreamKind) -> (r: LineBuffer)
        ensures
            r.kind == kind,
            r.pending@ == Seq::<u8>::empty(),
    {
        LineBuffer { kind, pending: Vec::new() }
    }

    /// Feed one chunk of stream bytes; the events returned are exactly the
    /// lines this chunk completes, in order, each tagged with this buffer's
    /// stream, and the buffer keeps exactly the unfinished tail.
    pub fn push_chunk(&mut self, chunk: &Vec<u8>) -> (events: Vec<OutputEvent>)
        ensures
            final(self).kind == old(self).kind,
            events@.map_values(|e: OutputEvent| e.line@) == split_from(
                chunk@,
                old(self).pending@,
            ),
            final(self).pending@ == rest_from(chunk@, old(self).pending@),
            forall|i: int|
                0 <= i < events@.len() ==> (#[trigger] events@[i]).stream == old(self).kind,
    {
        let ghost start: Seq<u8> = self.pending@;
        let mut cur: Vec<u8> = Vec::new();
        core::mem::swap(&mut cur, &mut self.pending);
        let mut events: Vec<OutputEvent> = Vec::new();
        let mut j: usize = 0;
        while j < chunk.len()
            invariant
                j <= chunk.len(),
                self.kind == old(self).kind,
                self.pending@ == Seq::<u8>::empty(),
                events@.map_values(|e: OutputEvent| e.line@) == split_from(
                    chunk@.take(j as int),
                    start,
                ),
                cur@ == rest_from(chunk@.take(j as int), start),
                forall|i: int|
                    0 <= i < events@.len() ==> (#[trigger] events@[i]).stream == old(self).kind,
            decreases chunk.len() - j,
        {
            let b = chunk[j];
            proof {
                assert(chunk@.take(j + 1) =~= chunk@.take(j as int) + seq![b]);
                lemma_split_compose(chunk@.take(j as int), seq![b], start);
                lemma_split_single(b, rest_from(chunk@.take(j as int), start));
            }
            if b == NL_BYTE {
                if cur.len() > 0 {
                    let last_i = cur.len() - 1;
                    if cur[last_i] == CR_BYTE {
                        cur.pop();
                    }
                }
                proof {
                    assert(cur@ == line_body(rest_from(chunk@.take(j as int), start)));
                }
                let ghost before = events@.map_values(|e: OutputEvent| e.line@);
                let line_done = cur;
                cur = Vec::new();
                events.push(OutputEvent { line: line_done, stream: self.kind });
                proof {
                    assert(events@.map_values(|e: OutputEvent| e.line@) =~= before.push(
                        line_done@,
                    ));
                    assert(before.push(line_done@) =~= before + seq![line_done@]);
                    assert(before + seq![line_done@] == split_from(chunk@.take(j + 1), start));
                }
            } else {
                let ghost before = events@.map_values(|e: OutputEvent| e.line@);
                cur.push(b);
                proof {
                    assert(before + split_from(seq![b], rest_from(chunk@.take(j as int), start))
                        =~= before);
                }
            }
            j = j + 1;
        }
        proof {
            assert(chunk@.take(chunk.len() as int) =~= chunk@);
        }
        self.pending = cur;
        events
    }

    /// End of stream: whatever unfinished line the buffer still holds becomes
    /// one last event, unaltered; an empty buffer yields nothing.
    pub fn finish(self) -> (events: Vec<OutputEvent>)
        ensures
            events@.map_values(|e: OutputEvent| e.line@) == (if self.pending@.len() == 0 {
                Seq::<Seq<u8>>::empty()
            } else {
                seq![self.pending@]
            }),
            forall|i: int|
                0 <= i < events@.len() ==> (#[trigger] events@[i]).stream == self.kind,
    {
        let mut events: Vec<OutputEvent> = Vec::new();
        if self.pending.len() > 0 {
            events.push(OutputEvent { line: self.pending, stream: self.kind });
            proof {
                assert(events@.map_values(|e: OutputEvent| e.line@) =~= seq![self.pending@]);
            }
        } else {
            proof {
                assert(events@.map_values(|e: OutputEvent| e.line@) =~= Seq::<Seq<u8>>::empty());
            }
        }
        events
    }
}

} // verus!
