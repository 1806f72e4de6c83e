//! The stop-sequence filter: wraps a stream of generated fragments and
//! suppresses any text that matches, or could still grow into, a configured
//! stop word; a full match ends the stream and discards the held text.
use vstd::prelude::*;

verus! {

/// `p` is a prefix of `s`.
pub open spec fn spec_is_prefix(p: Seq<char>, s: Seq<char>) -> bool {
    p.len() <= s.len() && p == s.subrange(0, p.len() as int)
}

/// Some configured stop word starts the buffer: the stop sequence has fully
/// appeared at the head of the held text.
pub open spec fn spec_some_stop_starts(stops: Seq<String>, buf: Seq<char>) -> bool {
    exists|i: int| 0 <= i < stops.len() && spec_is_prefix(#[trigger] stops[i]@, buf)
}

/// The buffer is a prefix of some stop word: more input could still complete
/// a stop sequence.
pub open spec fn spec_buffer_held(stops: Seq<String>, buf: Seq<char>) -> bool {
    exists|i: int| 0 <= i < stops.len() && spec_is_prefix(buf, #[trigger] stops[i]@)
}

fn str_is_prefix(p: &str, s: &str) -> (r: bool)
    ensures
        r == spec_is_prefix(p@, s@),
{
    let np = p.unicode_len();
    let ns = s.unicode_len();
    if np > ns {
        return false;
    }
    let mut i: usize = 0;
    while i < np
        invariant
            0 <= i <= np,
            np == p@.len(),
            ns == s@.len(),
            np <= ns,
            forall|j: int| 0 <= j < i ==> p@[j] == s@[j],
        decreases np - i,
    {
        if p.get_char(i) != s.get_char(i) {
            proof {
                assert(s@.subrange(0, np as int)[i as int] == s@[i as int]);
            }
            return false;
        }
        i += 1;
    }
    proof {
        assert(p@ =~= s@.subrange(0, np as int));
    }
    true
}

fn any_stop_starts(stops: &Vec<String>, buf: &String) -> (r: bool)
    ensures
        r == spec_some_stop_starts(stops@, buf@),
{
    let n = stops.len();
    let mut i: usize = 0;
    while i < n
        invariant
            0 <= i <= n,
            n == stops@.len(),
            forall|j: int| 0 <= j < i ==> !spec_is_prefix(#[trigger] stops@[j]@, buf@),
        decreases n - i,
    {
        if str_is_prefix(stops[i].as_str(), buf.as_str()) {
            return true;
        }
        i += 1;
    }
    false
}

fn buffer_held(stops: &Vec<String>, buf: &String) -> (r: bool)
    ensures
        r == spec_buffer_held(stops@, buf@),
{
    let n = stops.len();
    let mut i: usize = 0;
    while i < n
        invariant
            0 <= i <= n,
            n == stops@.len(),
            forall|j: int| 0 <= j < i ==> !spec_is_prefix(buf@, #[trigger] stops@[j]@),
        decreases n - i,
    {
        if str_is_prefix(buf.as_str(), stops[i].as_str()) {
            return true;
        }
        i += 1;
    }
    false
}

/// What the wrapped stream hands the filter on one pull: a fresh fragment, or
/// its end.
pub enum StreamEvent {
    Fragment(String),
    End,
}

/// What the filter does with one pull: pass a fragment through, hold and wait
/// for more input, or end the stream for good.
pub enum FilterStep {
    Emit(String),
    Hold,
    Finished,
}

/// The filter's state: the configured stop words, the accumulated
/// not-yet-emitted text, and the fuse that marks a terminated stream.
pub struct StoppingStream {
    pub stop_words: Vec<String>,
    pub working_buffer: String,
    pub fused: bool,
}

/// A filter whose stream has ended for good: fused, with nothing held.
pub open spec fn spec_terminated(s: StoppingStream) -> bool {
    s.fused && s.working_buffer@ == Seq::<char>::empty()
}

impl StoppingStream {
    /// A fresh filter over the given stop words.
    pub fn new(stop_words: Vec<String>) -> (r: StoppingStream)
        ensures
            r.stop_words@ == stop_words@,
            r.working_buffer@ == Seq::<char>::empty(),
            !r.fused,
    {
        StoppingStream { stop_words, working_buffer: String::new(), fused: false }
    }

    /// Advances the filter by one pull of the wrapped stream.
    ///
    /// Once fused — by the inner stream ending or by a stop-word match — every
    /// further call yields `Finished` and changes nothing. On a fragment, the
    /// buffer grows by the fragment, then: a stop word at the head of the
    /// buffer ends the stream and discards the buffer; a buffer that is still
    /// a prefix of some stop word is held; otherwise the whole buffer is
    /// emitted, and it neither contains a stop word at its head nor can a
    /// continuation complete one across its start.
    pub fn next(&mut self, ev: StreamEvent) -> (r: FilterStep)
        ensures
            final(self).stop_words == old(self).stop_words,
            old(self).fused ==> r is Finished && *final(self) == *old(self),
            !old(self).fused && ev is End ==> r is Finished && spec_terminated(*final(self)),
            !old(self).fused ==> (ev matches StreamEvent::Fragment(f) ==> {
                let stops = old(self).stop_words@;
                let buf2 = old(self).working_buffer@ + f@;
                &&& spec_some_stop_starts(stops, buf2) ==> r is Finished && spec_terminated(
                    *final(self),
                )
                &&& !spec_some_stop_starts(stops, buf2) && spec_buffer_held(stops, buf2)
                    ==> r is Hold && !final(self).fused && final(self).working_buffer@ == buf2
                &&& !spec_some_stop_starts(stops, buf2) && !spec_buffer_held(stops, buf2) ==> (
                r matches FilterStep::Emit(e) && e@ == buf2 && !final(self).fused
                    && final(self).working_buffer@ == Seq::<char>::empty())
            }),
    {
        if self.fused {
            return FilterStep::Finished;
        }
        match ev {
            StreamEvent::End => {
                self.fused = true;
                self.working_buffer = String::new();
                FilterStep::Finished
            },
            StreamEvent::Fragment(f) => {
                self.working_buffer.append(f.as_str());
                if any_stop_starts(&self.stop_words, &self.working_buffer) {
                    self.fused = true;
                    self.working_buffer = String::new();
                    FilterStep::Finished
                } else if buffer_held(&self.stop_words, &self.working_buffer) {
                    FilterStep::Hold
                } else {
                    let out = self.working_buffer.clone();
                    self.working_buffer = String::new();
                    FilterStep::Emit(out)
                }
            },
        }
    }
}

/// Stop-filter safety: a fragment the filter emits neither starts with a stop
/// word nor is a prefix of one, so however the stream continues, no stop word
/// can ever start at the beginning of that emitted text.
pub proof fn lemma_emitted_fragment_safe(stops: Seq<String>, emitted: Seq<char>, future: Seq<char>)
    requires
        forall|i: int| 0 <= i < stops.len() ==> !spec_is_prefix(#[trigger] stops[i]@, emitted),
        forall|i: int| 0 <= i < stops.len() ==> !spec_is_prefix(emitted, #[trigger] stops[i]@),
    ensures
        forall|i: int|
            0 <= i < stops.len() ==> !spec_is_prefix(#[trigger] stops[i]@, emitted + future),
{
    assert forall|i: int| 0 <= i < stops.len() implies !spec_is_prefix(
        #[trigger] stops[i]@,
        emitted + future,
    ) by {
        let w = stops[i]@;
        if spec_is_prefix(w, emitted + future) {
            if w.len() <= emitted.len() {
                assert(forall|j: int|
                    0 <= j < w.len() ==> w[j] == #[trigger] (emitted + future)[j]);
                assert(w =~= emitted.subrange(0, w.len() as int));
                assert(spec_is_prefix(w, emitted));
            } else {
                assert(forall|j: int|
                    0 <= j < emitted.len() ==> #[trigger] emitted[j] == (emitted + future)[j]);
                assert(emitted =~= w.subrange(0, emitted.len() as int));
                assert(spec_is_prefix(emitted, w));
            }
        }
    }
}

} // verus!
