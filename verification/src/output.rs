//! The log sink: a double-buffered writer of NDJSON lines.
//!
//! Producers append rendered lines to the input buffer; on a timer the two
//! buffers swap in O(1) and the drained output buffer leaves as one chunk
//! of text for the surrounding process to write and flush. Exclusive access
//! to the writer is the exclusion domain of the design: every append is one
//! whole line, so the emitted log is a total order consistent with append
//! order, and a forced drain delivers every line appended before it, in
//! that order. Writing the chunk, and any write error, stay outside: a
//! slow or failing sink never feeds back into the data path.

use vstd::prelude::*;

use crate::render::data_line;
use crate::render::event_line;
use crate::render::render_data_line;
use crate::render::render_event_line;
use crate::text::push_char;

verus! {

/// The characters a timestamp is made of: printable ASCII that needs no
/// JSON escaping.
pub open spec fn timestamp_chars_ok(s: Seq<char>) -> bool {
    forall|i: int|
        0 <= i < s.len() ==> (0x20 <= (#[trigger] s[i]) as int) && ((s[i] as int) < 0x7F) && s[i]
            != '"' && s[i] != '\\'
}

/// Relies on `chrono::Utc::now` and `DateTime::format` with
/// `%Y-%m-%dT%H:%M:%S%.6fZ`: an ISO-8601 UTC timestamp with microseconds,
/// built of digits and the separators `-`, `T`, `:`, `.`, `Z` (and a sign
/// for out-of-range years) - all printable ASCII, never `"` or `\`.
/// Nothing further can be promised of a clock reading.
#[verifier::external_body]
fn now_timestamp() -> (r: String)
    ensures
        timestamp_chars_ok(r@),
{
    chrono::Utc::now().format("%Y-%m-%dT%H:%M:%S%.6fZ").to_string()
}

/// Relies on `std::time::SystemTime::now` (with `duration_since`
/// converting the result): milliseconds since the Unix epoch, or zero
/// should the clock precede it. Nothing can be promised of a clock
/// reading; the swap decision states what holds of every outcome.
#[verifier::external_body]
fn now_millis() -> u64 {
    match std::time::SystemTime::now().duration_since(std::time::UNIX_EPOCH) {
        Ok(d) => d.as_millis() as u64,
        Err(_) => 0,
    }
}

/// The text of a drained chunk: each line followed by one newline.
pub open spec fn lines_text(lines: Seq<Seq<char>>) -> Seq<char>
    decreases lines.len(),
{
    if lines.len() == 0 {
        Seq::empty()
    } else {
        lines_text(lines.drop_last()) + lines.last() + seq!['\n']
    }
}

/// The double-buffered log sink. Lines are appended to the input buffer
/// only; only the output buffer is ever drained; a swap is the sole
/// transfer between them.
pub struct OutputWriter {
    input_buffer: Vec<String>,
    output_buffer: Vec<String>,
    last_swap: u64,
    flush_interval_ms: u64,
    delivered: Ghost<Seq<Seq<char>>>,
}

impl OutputWriter {
    /// The lines already handed out for writing, in order.
    pub closed spec fn delivered_lines(self) -> Seq<Seq<char>> {
        self.delivered@
    }

    /// The lines appended but not yet handed out, in append order.
    pub closed spec fn pending_lines(self) -> Seq<Seq<char>> {
        self.output_buffer.deep_view() + self.input_buffer.deep_view()
    }

    /// Every line ever appended, in append order. Always the delivered
    /// lines followed by the pending ones: delivery neither loses, invents
    /// nor reorders lines.
    pub open spec fn appended_lines(self) -> Seq<Seq<char>> {
        self.delivered_lines() + self.pending_lines()
    }

    /// The configured flush interval in milliseconds.
    pub closed spec fn flush_interval(self) -> u64 {
        self.flush_interval_ms
    }

    /// Between public calls the output buffer is empty: a swap always
    /// finds it drained, so a swap moves the input lines only.
    pub closed spec fn wf(self) -> bool {
        self.output_buffer@.len() == 0
    }

    /// A writer with empty buffers and the given flush interval; the swap
    /// clock starts now.
    pub fn new(flush_interval_ms: u64) -> (w: OutputWriter)
        ensures
            w.wf(),
            w.delivered_lines() == Seq::<Seq<char>>::empty(),
            w.appended_lines() == Seq::<Seq<char>>::empty(),
            w.flush_interval() == flush_interval_ms,
    {
        let w = OutputWriter {
            input_buffer: Vec::new(),
            output_buffer: Vec::new(),
            last_swap: now_millis(),
            flush_interval_ms,
            delivered: Ghost(Seq::empty()),
        };
        proof {
            assert(w.appended_lines() =~= Seq::<Seq<char>>::empty());
        }
        w
    }

    /// Append one rendered line to the input buffer.
    fn add_line(&mut self, line: String)
        ensures
            final(self).delivered_lines() == old(self).delivered_lines(),
            final(self).appended_lines() == old(self).appended_lines().push(line@),
            final(self).wf() == old(self).wf(),
            final(self).flush_interval() == old(self).flush_interval(),
            final(self).last_swap == old(self).last_swap,
    {
        self.input_buffer.push(line);
        proof {
            assert(self.input_buffer.deep_view() =~= old(self).input_buffer.deep_view().push(
                line@,
            ));
            assert(final(self).appended_lines() =~= old(self).appended_lines().push(line@));
        }
    }

    /// Drain the output buffer: its lines leave as one chunk of text, in
    /// order, and count as delivered.
    fn flush_output_buffer(&mut self) -> (content: Option<String>)
        ensures
            final(self).input_buffer == old(self).input_buffer,
            final(self).output_buffer@.len() == 0,
            final(self).delivered@ == old(self).delivered@ + old(self).output_buffer.deep_view(),
            final(self).last_swap == old(self).last_swap,
            final(self).flush_interval_ms == old(self).flush_interval_ms,
            match content {
                Option::None => old(self).output_buffer@.len() == 0,
                Option::Some(c) => old(self).output_buffer@.len() > 0 && c@ == lines_text(
                    old(self).output_buffer.deep_view(),
                ),
            },
    {
        if self.output_buffer.is_empty() {
            proof {
                assert(final(self).delivered@ =~= old(self).delivered@ + old(
                    self,
                ).output_buffer.deep_view());
            }
            return None;
        }
        let ghost lines = self.output_buffer.deep_view();
        let mut content = String::new();
        let mut i: usize = 0;
        let n = self.output_buffer.len();
        while i < n
            invariant
                n == self.output_buffer@.len(),
                i <= n,
                lines == self.output_buffer.deep_view(),
                content@ == lines_text(lines.take(i as int)),
            decreases n - i,
        {
            let line: &String = &self.output_buffer[i];
            content.append(line.as_str());
            push_char(&mut content, '\n');
            proof {
                let pre = lines.take(i as int);
                let post = lines.take(i + 1 as int);
                assert(post.drop_last() =~= pre);
                assert(post.last() == lines[i as int]);
                assert(content@ =~= lines_text(post));
            }
            i += 1;
        }
        proof {
            assert(lines.take(n as int) =~= lines);
        }
        self.output_buffer.clear();
        self.delivered = Ghost(self.delivered@ + lines);
        Some(content)
    }

    /// Swap and drain when the flush interval has elapsed and there are
    /// lines to flush; otherwise change nothing.
    fn maybe_swap(&mut self) -> (content: Option<String>)
        requires
            old(self).wf(),
        ensures
            final(self).wf(),
            final(self).appended_lines() == old(self).appended_lines(),
            final(self).flush_interval() == old(self).flush_interval(),
            match content {
                Option::None => final(self).delivered_lines() == old(self).delivered_lines(),
                Option::Some(c) => final(self).delivered_lines() == old(self).appended_lines()
                    && c@ == lines_text(
                    old(self).appended_lines().skip(old(self).delivered_lines().len() as int),
                ) && old(self).pending_lines().len() > 0,
            },
    {
        let now = now_millis();
        if now >= self.last_swap && now - self.last_swap >= self.flush_interval_ms {
            if !self.input_buffer.is_empty() {
                core::mem::swap(&mut self.input_buffer, &mut self.output_buffer);
                self.last_swap = now;
                let ghost before = *self;
                let content = self.flush_output_buffer();
                proof {
                    assert(before.output_buffer.deep_view() =~= old(self).pending_lines());
                    assert(final(self).pending_lines() =~= Seq::<Seq<char>>::empty());
                    assert(final(self).appended_lines() =~= old(self).appended_lines());
                    assert(final(self).delivered_lines() =~= old(self).appended_lines());
                    assert(old(self).appended_lines().skip(
                        old(self).delivered_lines().len() as int,
                    ) =~= old(self).pending_lines());
                }
                return content;
            }
        }
        None
    }

    /// Record a lifecycle event: render one line carrying a freshly read
    /// timestamp, append it, then swap opportunistically. A returned chunk
    /// is everything pending, drained in append order, for the caller to
    /// write.
    pub fn log_event(&mut self, connid: &str, event: &str, from: &str, to: &str) -> (flushed:
        Option<String>)
        requires
            old(self).wf(),
        ensures
            final(self).wf(),
            final(self).flush_interval() == old(self).flush_interval(),
            exists|ts: Seq<char>|
                #[trigger] timestamp_chars_ok(ts) && final(self).appended_lines() == old(
                    self,
                ).appended_lines().push(event_line(ts, connid@, event@, from@, to@)),
            match flushed {
                Option::None => final(self).delivered_lines() == old(self).delivered_lines(),
                Option::Some(c) => final(self).delivered_lines() == final(self).appended_lines()
                    && c@ == lines_text(
                    final(self).appended_lines().skip(old(self).delivered_lines().len() as int),
                ),
            },
    {
        let ts = now_timestamp();
        let line = render_event_line(ts.as_str(), connid, event, from, to);
        self.add_line(line);
        self.maybe_swap()
    }

    /// Record forwarded payload bytes: render one data line carrying the
    /// encoded payload and a freshly read timestamp, append it, then swap
    /// opportunistically.
    pub fn log_data(&mut self, connid: &str, data: &[u8], from: &str, to: &str) -> (flushed:
        Option<String>)
        requires
            old(self).wf(),
        ensures
            final(self).wf(),
            final(self).flush_interval() == old(self).flush_interval(),
            exists|ts: Seq<char>|
                #[trigger] timestamp_chars_ok(ts) && final(self).appended_lines() == old(
                    self,
                ).appended_lines().push(data_line(ts, connid@, data@, from@, to@)),
            match flushed {
                Option::None => final(self).delivered_lines() == old(self).delivered_lines(),
                Option::Some(c) => final(self).delivered_lines() == final(self).appended_lines()
                    && c@ == lines_text(
                    final(self).appended_lines().skip(old(self).delivered_lines().len() as int),
                ),
            },
    {
        let ts = now_timestamp();
        let line = render_data_line(ts.as_str(), connid, data, from, to);
        self.add_line(line);
        self.maybe_swap()
    }

    /// The periodic tick: the same opportunistic swap with no new line,
    /// bounding staleness to one interval even when nothing is logged.
    pub fn periodic_flush(&mut self) -> (flushed: Option<String>)
        requires
            old(self).wf(),
        ensures
            final(self).wf(),
            final(self).appended_lines() == old(self).appended_lines(),
            final(self).flush_interval() == old(self).flush_interval(),
            match flushed {
                Option::None => final(self).delivered_lines() == old(self).delivered_lines(),
                Option::Some(c) => final(self).delivered_lines() == old(self).appended_lines()
                    && c@ == lines_text(
                    old(self).appended_lines().skip(old(self).delivered_lines().len() as int),
                ),
            },
    {
        self.maybe_swap()
    }

    /// The forced full drain for shutdown: every line appended before the
    /// call is delivered when it returns, in append order, whatever the
    /// swap clock says. Swaps up to twice so both buffers leave empty.
    pub fn flush_all(&mut self) -> (content: Option<String>)
        requires
            old(self).wf(),
        ensures
            final(self).wf(),
            final(self).appended_lines() == old(self).appended_lines(),
            final(self).delivered_lines() == old(self).appended_lines(),
            final(self).flush_interval() == old(self).flush_interval(),
            match content {
                Option::None => old(self).delivered_lines() == old(self).appended_lines(),
                Option::Some(c) => c@ == lines_text(
                    old(self).appended_lines().skip(old(self).delivered_lines().len() as int),
                ),
            },
    {
        core::mem::swap(&mut self.input_buffer, &mut self.output_buffer);
        let ghost before = *self;
        let content = self.flush_output_buffer();
        proof {
            assert(before.output_buffer.deep_view() =~= old(self).pending_lines());
            assert(self.pending_lines() =~= Seq::<Seq<char>>::empty());
            assert(self.appended_lines() =~= old(self).appended_lines());
            assert(self.delivered_lines() =~= old(self).appended_lines());
            assert(old(self).appended_lines().skip(old(self).delivered_lines().len() as int)
                =~= old(self).pending_lines());
            if old(self).pending_lines().len() == 0 {
                assert(old(self).delivered_lines() =~= old(self).appended_lines());
            }
        }
        if !self.input_buffer.is_empty() {
            // Unreachable under exclusive access: the output buffer is
            // empty between calls, so the first swap leaves the input
            // buffer empty. Kept as the second half of the swap-twice
            // drain protocol.
            core::mem::swap(&mut self.input_buffer, &mut self.output_buffer);
            let _ = self.flush_output_buffer();
        }
        content
    }
}

/// Law: delivery is a prefix of the append history. Every producer appends
/// one whole line under exclusive access, so the emitted log is a total
/// order consistent with append order, lines never interleaving.
pub proof fn lemma_delivered_prefix_of_appended(w: OutputWriter)
    ensures
        w.delivered_lines().len() <= w.appended_lines().len(),
        w.delivered_lines() == w.appended_lines().take(w.delivered_lines().len() as int),
{
    assert(w.delivered_lines() =~= w.appended_lines().take(w.delivered_lines().len() as int));
}

} // verus!
