//! The transcription job core: the state the host polls, the progress
//! mapping, the timestamp conversion from the recogniser's centisecond
//! units, and the filtering of empty and bracketed noise segments. The
//! speech model and the audio extraction run outside.

use vstd::prelude::*;

verus! {

/// One recognised span of speech on the timeline.
pub struct TranscriptSegment {
    pub start_ms: i64,
    pub end_ms: i64,
    pub text: String,
}

/// Ghost mirror of a `TranscriptSegment`.
pub ghost struct TranscriptSegmentView {
    pub start_ms: i64,
    pub end_ms: i64,
    pub text: Seq<char>,
}

impl View for TranscriptSegment {
    type V = TranscriptSegmentView;

    open spec fn view(&self) -> TranscriptSegmentView {
        TranscriptSegmentView { start_ms: self.start_ms, end_ms: self.end_ms, text: self.text@ }
    }
}

impl TranscriptSegment {
    /// A copy whose abstract value equals this segment's.
    pub fn duplicate(&self) -> (r: TranscriptSegment)
        ensures
            r@ == self@,
    {
        TranscriptSegment {
            start_ms: self.start_ms,
            end_ms: self.end_ms,
            text: self.text.clone(),
        }
    }
}

/// The state of one transcription job as the host sees it.
pub struct TranscriberJob {
    pub progress: u32,
    pub finished: bool,
    pub error: Option<String>,
    pub segments: Vec<TranscriptSegment>,
    pub abort_requested: bool,
}

/// The abstract values of a sequence of segments.
pub open spec fn segment_views(s: Seq<TranscriptSegment>) -> Seq<TranscriptSegmentView> {
    s.map_values(|x: TranscriptSegment| x@)
}

impl TranscriberJob {
    /// Well-formedness: the progress stays a percentage.
    pub open spec fn valid(self) -> bool {
        self.progress <= 100
    }

    pub fn new() -> (j: TranscriberJob)
        ensures
            j.valid(),
            j.progress == 0,
            !j.finished,
            j.error is None,
            j.segments@.len() == 0,
            !j.abort_requested,
    {
        TranscriberJob {
            progress: 0,
            finished: false,
            error: None,
            segments: Vec::new(),
            abort_requested: false,
        }
    }

    pub fn get_progress(&self) -> (r: u32)
        ensures
            r == self.progress,
    {
        self.progress
    }

    pub fn is_finished(&self) -> (r: bool)
        ensures
            r == self.finished,
    {
        self.finished
    }

    /// The failure (or warning) message; `None` while running or on
    /// success.
    pub fn get_error(&self) -> (r: Option<String>)
        ensures
            match r {
                Some(e) => match self.error {
                    Some(e0) => e@ == e0@,
                    None => false,
                },
                None => self.error is None,
            },
    {
        match &self.error {
            Some(e) => Some(e.clone()),
            None => None,
        }
    }

    /// A copy of the recognised segments.
    pub fn get_segments(&self) -> (r: Vec<TranscriptSegment>)
        ensures
            segment_views(r@) == segment_views(self.segments@),
    {
        let mut out: Vec<TranscriptSegment> = Vec::new();
        let mut i: usize = 0;
        while i < self.segments.len()
            invariant
                i <= self.segments@.len(),
                segment_views(out@) == segment_views(self.segments@.take(i as int)),
            decreases self.segments@.len() - i,
        {
            let ghost out0 = out@;
            out.push(self.segments[i].duplicate());
            proof {
                assert(segment_views(out@) =~= segment_views(out0).push(
                    self.segments@[i as int]@,
                ));
                assert(segment_views(self.segments@.take(i as int + 1)) =~= segment_views(
                    self.segments@.take(i as int),
                ).push(self.segments@[i as int]@));
            }
            i = i + 1;
        }
        proof {
            assert(self.segments@.take(self.segments@.len() as int) =~= self.segments@);
        }
        out
    }

    /// Progress written by the job's thread.
    pub fn set_progress(&mut self, p: u32)
        requires
            old(self).valid(),
            p <= 100,
        ensures
            final(self).valid(),
            final(self).progress == p,
            final(self).finished == old(self).finished,
            final(self).error == old(self).error,
            final(self).segments == old(self).segments,
            final(self).abort_requested == old(self).abort_requested,
    {
        self.progress = p;
    }

    /// The job ended; the recognised segments are installed.
    pub fn complete_with(&mut self, segments: Vec<TranscriptSegment>)
        requires
            old(self).valid(),
        ensures
            final(self).valid(),
            final(self).finished,
            final(self).progress == 100,
            final(self).segments == segments,
            final(self).error == old(self).error,
            final(self).abort_requested == old(self).abort_requested,
    {
        self.segments = segments;
        self.progress = 100;
        self.finished = true;
    }

    /// The job ended in failure (or with a warning): the message is kept.
    pub fn mark_failed(&mut self, message: String)
        requires
            old(self).valid(),
        ensures
            final(self).valid(),
            final(self).finished,
            match final(self).error {
                Some(e) => e@ == message@,
                None => false,
            },
            final(self).progress == old(self).progress,
            final(self).segments == old(self).segments,
            final(self).abort_requested == old(self).abort_requested,
    {
        self.error = Some(message);
        self.finished = true;
    }

    /// Ask the job to stop at its next opportunity.
    pub fn request_abort(&mut self)
        requires
            old(self).valid(),
        ensures
            final(self).valid(),
            final(self).abort_requested,
            final(self).progress == old(self).progress,
            final(self).finished == old(self).finished,
            final(self).error == old(self).error,
            final(self).segments == old(self).segments,
    {
        self.abort_requested = true;
    }
}

/// The recogniser's own progress (0 to 100) mapped into the job's 20 to 95
/// band: extraction and model loading own the first fifth, collection the
/// rest.
pub fn map_recognition_progress(p: u32) -> (r: u32)
    requires
        p <= 100,
    ensures
        r == 20 + p * 75 / 100,
        20 <= r <= 95,
{
    20 + p * 75 / 100
}

/// The recogniser's centisecond timestamps in milliseconds.
pub fn centi_to_ms(t: i64) -> (r: i64)
    requires
        -0x20_0000_0000_0000 <= t <= 0x20_0000_0000_0000,
    ensures
        r == t * 10,
{
    t * 10
}

/// Whether a recognised text is kept: empty texts and noise tokens fully
/// wrapped in round or square brackets are dropped.
pub open spec fn spec_keep_text(s: Seq<char>) -> bool {
    &&& s.len() > 0
    &&& !(s[0] == '(' && s.last() == ')')
    &&& !(s[0] == '[' && s.last() == ']')
}

/// Whether a recognised text (already trimmed) is kept.
pub fn keep_segment_text(text: &str) -> (r: bool)
    ensures
        r == spec_keep_text(text@),
{
    let n = text.unicode_len();
    if n == 0 {
        return false;
    }
    let first = text.get_char(0);
    let last = text.get_char(n - 1);
    if first == '(' && last == ')' {
        return false;
    }
    if first == '[' && last == ']' {
        return false;
    }
    true
}

/// The segments kept by the noise filter, in order.
pub open spec fn spec_filtered_segments(s: Seq<TranscriptSegmentView>) -> Seq<
    TranscriptSegmentView,
> {
    s.filter(|x: TranscriptSegmentView| spec_keep_text(x.text))
}

/// Drop empty and bracketed noise segments, keeping the rest in order.
pub fn filter_segments(raw: Vec<TranscriptSegment>) -> (r: Vec<TranscriptSegment>)
    ensures
        segment_views(r@) == spec_filtered_segments(segment_views(raw@)),
{
    let mut out: Vec<TranscriptSegment> = Vec::new();
    let mut i: usize = 0;
    while i < raw.len()
        invariant
            i <= raw@.len(),
            segment_views(out@) == spec_filtered_segments(
                segment_views(raw@.take(i as int)),
            ),
        decreases raw@.len() - i,
    {
        let ghost pred = |x: TranscriptSegmentView| spec_keep_text(x.text);
        proof {
            let p0 = segment_views(raw@.take(i as int));
            let p1 = segment_views(raw@.take(i as int + 1));
            assert(p1.drop_last() =~= p0);
            assert(p1.last() == raw@[i as int]@);
            reveal(Seq::filter);
        }
        if keep_segment_text(self_text(&raw[i])) {
            let ghost out0 = out@;
            out.push(raw[i].duplicate());
            proof {
                assert(segment_views(out@) =~= segment_views(out0).push(raw@[i as int]@));
                assert(segment_views(raw@.take(i as int + 1)).filter(pred) =~= segment_views(
                    raw@.take(i as int),
                ).filter(pred).push(raw@[i as int]@));
            }
        } else {
            proof {
                assert(segment_views(raw@.take(i as int + 1)).filter(pred) =~= segment_views(
                    raw@.take(i as int),
                ).filter(pred));
            }
        }
        i = i + 1;
    }
    proof {
        assert(raw@.take(raw@.len() as int) =~= raw@);
    }
    out
}

/// The text of a segment, borrowed.
fn self_text(seg: &TranscriptSegment) -> (r: &str)
    ensures
        r@ == seg.text@,
{
    self_str(&seg.text)
}

/// A string borrowed as a slice.
fn self_str(s: &String) -> (r: &str)
    ensures
        r@ == s@,
{
    s.as_str()
}

} // verus!
