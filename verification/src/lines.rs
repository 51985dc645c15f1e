//! Log fan-out: line reassembly and the consumers' reactions.
//!
//! The child's raw output arrives in arbitrary chunks.  `LineSplitter`
//! buffers them and hands back each completed line — newline included — in
//! arrival order; whatever follows the last newline stays buffered.  A
//! consumer of the broadcast stream sees `LogEvent`s: a line, the end of the
//! stream, or a lag notice carrying the count of skipped lines.  The mirror
//! that relays lines to this process's own output treats lag as harmless;
//! pattern probes treat it as fatal (see `probes::Matches`).

use vstd::prelude::*;

verus! {

/// One event seen by a subscriber of the log fan-out.
#[derive(Debug, Clone, PartialEq, Eq)]
pub enum LogEvent {
    /// One complete log line, trailing newline included.
    Line(Vec<u8>),
    /// The producer finished: no further lines will come.
    Closed,
    /// The subscriber fell behind and this many lines were skipped.
    Lagged(u64),
}

/// What the stdout mirror does with one event.
#[derive(Debug, Clone, Copy, PartialEq, Eq, Structural)]
pub enum MirrorStep {
    /// Write the line through to standard output.
    Forward,
    /// Flush standard output and stop: the stream ended.
    Finish,
    /// Lag is not fatal for the mirror: continue with the next line.
    Resume,
}

/// The stdout mirror's reaction to one log event: forward lines, flush and
/// stop at end of stream, and carry on after lag.
pub fn mirror_on_event(event: &LogEvent) -> (r: MirrorStep)
    ensures
        r == match event {
            LogEvent::Line(_) => MirrorStep::Forward,
            LogEvent::Closed => MirrorStep::Finish,
            LogEvent::Lagged(_) => MirrorStep::Resume,
        },
{
    match event {
        LogEvent::Line(_) => MirrorStep::Forward,
        LogEvent::Closed => MirrorStep::Finish,
        LogEvent::Lagged(_) => MirrorStep::Resume,
    }
}

/// The newline byte that ends every log line.
pub const NEWLINE: u8 = 10;

/// The first position at or after `from` holding a newline, or the length.
pub open spec fn find_nl(s: Seq<u8>, from: int) -> int
    decreases s.len() - from,
{
    if from < 0 || from >= s.len() {
        s.len() as int
    } else if s[from] == NEWLINE {
        from
    } else {
        find_nl(s, from + 1)
    }
}

pub proof fn lemma_find_nl_bounds(s: Seq<u8>, from: int)
    requires
        0 <= from <= s.len(),
    ensures
        from <= find_nl(s, from) <= s.len(),
        find_nl(s, from) < s.len() ==> s[find_nl(s, from)] == NEWLINE,
        forall|k: int| from <= k < find_nl(s, from) ==> s[k] != NEWLINE,
    decreases s.len() - from,
{
    if from < s.len() && s[from] != NEWLINE {
        lemma_find_nl_bounds(s, from + 1);
    }
}

/// A first occurrence pins `find_nl` down.
pub proof fn lemma_find_nl_at(s: Seq<u8>, from: int, i: int)
    requires
        0 <= from <= i < s.len(),
        s[i] == NEWLINE,
        forall|k: int| from <= k < i ==> s[k] != NEWLINE,
    ensures
        find_nl(s, from) == i,
    decreases i - from,
{
    if from < i {
        lemma_find_nl_at(s, from + 1, i);
    }
}

/// No occurrence at all pins `find_nl` to the length.
pub proof fn lemma_find_nl_none(s: Seq<u8>, from: int)
    requires
        0 <= from <= s.len(),
        forall|k: int| from <= k < s.len() ==> s[k] != NEWLINE,
    ensures
        find_nl(s, from) == s.len(),
    decreases s.len() - from,
{
    if from < s.len() {
        lemma_find_nl_none(s, from + 1);
    }
}

/// The completed lines of `s`, in order, each with its trailing newline.
pub open spec fn spec_lines(s: Seq<u8>) -> Seq<Seq<u8>>
    decreases s.len(),
{
    let i = find_nl(s, 0);
    if 0 <= i < s.len() {
        seq![s.subrange(0, i + 1)] + spec_lines(s.subrange(i + 1, s.len() as int))
    } else {
        Seq::empty()
    }
}

/// What remains of `s` after its last completed line.
pub open spec fn spec_rest(s: Seq<u8>) -> Seq<u8>
    decreases s.len(),
{
    let i = find_nl(s, 0);
    if 0 <= i < s.len() {
        spec_rest(s.subrange(i + 1, s.len() as int))
    } else {
        s
    }
}

/// Relies on `memchr::memchr`: the index of the first occurrence of
/// `needle` in `haystack`, if there is one.
#[verifier::external_body]
fn find_byte(needle: u8, haystack: &[u8]) -> (r: Option<usize>)
    ensures
        match r {
            Some(i) => 0 <= i < haystack@.len() && haystack@[i as int] == needle && forall|k: int|
                0 <= k < i ==> haystack@[k] != needle,
            None => forall|k: int| 0 <= k < haystack@.len() ==> haystack@[k] != needle,
        },
{
    memchr::memchr(needle, haystack)
}

/// The views of a sequence of byte vectors.
pub open spec fn seq_views(lines: Seq<Vec<u8>>) -> Seq<Seq<u8>> {
    lines.map_values(|l: Vec<u8>| l@)
}

/// Reassembles newline-terminated lines from arbitrarily chunked input.
pub struct LineSplitter {
    buffer: Vec<u8>,
}

impl LineSplitter {
    /// The bytes received so far that belong to no completed line yet.
    pub closed spec fn spec_buffer(&self) -> Seq<u8> {
        self.buffer@
    }

    /// The buffer never holds a newline: completed lines leave at once.
    pub open spec fn wf(&self) -> bool {
        forall|k: int| 0 <= k < self.spec_buffer().len() ==> self.spec_buffer()[k] != NEWLINE
    }

    pub fn new() -> (r: LineSplitter)
        ensures
            r.spec_buffer() == Seq::<u8>::empty(),
            r.wf(),
    {
        LineSplitter { buffer: Vec::new() }
    }

    /// Appends one chunk and hands back every line it completed, in order.
    /// The lines and the new buffer are exactly the split of the old buffer
    /// followed by the chunk.
    pub fn push(&mut self, chunk: &[u8]) -> (lines: Vec<Vec<u8>>)
        requires
            old(self).wf(),
            old(self).spec_buffer().len() + chunk@.len() <= usize::MAX,
        ensures
            seq_views(lines@) == spec_lines(old(self).spec_buffer() + chunk@),
            final(self).spec_buffer() == spec_rest(old(self).spec_buffer() + chunk@),
            final(self).wf(),
    {
        let ghost total = self.buffer@ + chunk@;
        let mut incoming = vstd::slice::slice_to_vec(chunk);
        self.buffer.append(&mut incoming);
        assert(self.buffer@ == total);
        let mut out: Vec<Vec<u8>> = Vec::new();
        loop
            invariant
                total == old(self).spec_buffer() + chunk@,
                seq_views(out@) + spec_lines(self.buffer@) == spec_lines(total),
                spec_rest(self.buffer@) == spec_rest(total),
                self.buffer@.len() <= usize::MAX,
            decreases self.buffer@.len(),
        {
            let ghost pre = self.buffer@;
            match find_byte(NEWLINE, self.buffer.as_slice()) {
                None => {
                    proof {
                        lemma_find_nl_none(pre, 0);
                        assert(spec_lines(pre) == Seq::<Seq<u8>>::empty());
                        assert(spec_rest(pre) == pre);
                        assert(seq_views(out@) + Seq::<Seq<u8>>::empty() =~= seq_views(out@));
                    }
                    return out;
                },
                Some(i) => {
                    proof {
                        lemma_find_nl_at(pre, 0, i as int);
                    }
                    let line_slice = vstd::slice::slice_subrange(self.buffer.as_slice(), 0, i + 1);
                    let line = vstd::slice::slice_to_vec(line_slice);
                    let rest_slice = vstd::slice::slice_subrange(
                        self.buffer.as_slice(),
                        i + 1,
                        self.buffer.len(),
                    );
                    let rest = vstd::slice::slice_to_vec(rest_slice);
                    self.buffer = rest;
                    proof {
                        assert(spec_lines(pre) == seq![pre.subrange(0, i + 1)] + spec_lines(
                            self.buffer@,
                        ));
                        assert(spec_rest(pre) == spec_rest(self.buffer@));
                    }
                    let ghost before = out@;
                    out.push(line);
                    proof {
                        assert(seq_views(out@) =~= seq_views(before) + seq![pre.subrange(0, i + 1)]);
                        assert(seq_views(out@) + spec_lines(self.buffer@) =~= spec_lines(total));
                    }
                },
            }
        }
    }
}

} // verus!
