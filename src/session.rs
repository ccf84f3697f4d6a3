use crate::history::{appended, failed, stopped, CpuFrequencyHistory, HistoryView, MonitorError};
use vstd::prelude::*;

verus! {

/// Interval, in milliseconds, between two samples and between two redraws.
pub const POLL_RATE_MS: u64 = 500;

/// Number of samples kept per core during a monitor session.
pub const HISTORY_LENGTH: usize = 30;

/// What the sampling loop does after one pass.
#[derive(Debug, Clone, Copy, PartialEq, Eq, Structural)]
pub enum SamplingAction {
    /// Sleep one poll interval, then sample again.
    Sleep,
    /// Stop sampling: the session was asked to end.
    Finish,
    /// End the sampling loop with this error.
    Fail(MonitorError),
}

/// A keyboard event seen by the render loop.
#[derive(Debug, Clone, Copy, PartialEq, Eq, Structural)]
pub enum KeyInput {
    /// A character key.
    Char(char),
    /// The escape key.
    Esc,
    /// Any other key or event.
    Other,
}

/// What the render loop does after one frame.
#[derive(Debug, Clone, Copy, PartialEq, Eq, Structural)]
pub enum RenderAction {
    /// Draw the next frame.
    Redraw,
    /// Leave the render loop; sampling has been told to stop.
    Quit,
}

/// The outcome of one sampling pass: the new state and the next action.
pub open spec fn sampling_outcome(h: HistoryView, sample: Result<Seq<u32>, MonitorError>) -> (
    HistoryView,
    SamplingAction,
) {
    match sample {
        Err(e) => (failed(h), SamplingAction::Fail(e)),
        Ok(values) => if values.len() != h.series.len() {
            (failed(h), SamplingAction::Fail(MonitorError::ShapeMismatch))
        } else if h.running {
            (appended(h, values), SamplingAction::Sleep)
        } else {
            (appended(h, values), SamplingAction::Finish)
        },
    }
}

/// The sampled values, viewed as a sequence.
pub open spec fn sample_view(sample: Result<Vec<u32>, MonitorError>) -> Result<Seq<u32>, MonitorError> {
    match sample {
        Ok(v) => Ok(v@),
        Err(e) => Err(e),
    }
}

/// Whether a key asks to quit: `q` or escape.
pub open spec fn quits(key: KeyInput) -> bool {
    key == KeyInput::Char('q') || key == KeyInput::Esc
}

/// Once the history is stopped, the next sampling pass ends the loop: it
/// appends at most that one batch and never asks to sample again.
pub proof fn lemma_stop_ends_sampling(h: HistoryView, sample: Result<Seq<u32>, MonitorError>)
    ensures
        sampling_outcome(stopped(h), sample).1 != SamplingAction::Sleep,
        (sample matches Ok(values) && values.len() == h.series.len()) ==> sampling_outcome(
            stopped(h),
            sample,
        ).0 == appended(stopped(h), sample->Ok_0),
        !(sample matches Ok(values) && values.len() == h.series.len()) ==> sampling_outcome(
            stopped(h),
            sample,
        ).0 == failed(stopped(h)),
{
}

/// A sampling pass that fails leaves the history in a state where the next
/// render pass ends the render loop, whatever key it sees.
pub proof fn lemma_failure_ends_session(
    h: HistoryView,
    sample: Result<Seq<u32>, MonitorError>,
    key: Option<KeyInput>,
)
    ensures
        sampling_outcome(h, sample).1 is Fail ==> render_ends(sampling_outcome(h, sample).0, key),
{
}

/// The running flag is changed by nothing but a stop: a sampling pass keeps
/// it, and once it is false no pass or further stop turns it back on.
pub proof fn lemma_running_only_stops(h: HistoryView, sample: Result<Seq<u32>, MonitorError>)
    ensures
        sampling_outcome(h, sample).0.running == h.running,
        !sampling_outcome(stopped(h), sample).0.running,
        !stopped(stopped(h)).running,
{
}

/// Whether `key` is a quit key (`q` or escape).
pub fn is_quit_key(key: KeyInput) -> (r: bool)
    ensures
        r == quits(key),
{
    match key {
        KeyInput::Char(c) => c == 'q',
        KeyInput::Esc => true,
        KeyInput::Other => false,
    }
}

/// One pass of the sampling loop, given what the sample source returned:
/// a failed read, or a batch of the wrong shape, is recorded in the history
/// and ends the loop with its error; a batch is appended, and the loop ends if
/// the history is no longer running.
pub fn sampling_step(h: &mut CpuFrequencyHistory, sample: Result<Vec<u32>, MonitorError>) -> (r:
    SamplingAction)
    ensures
        (final(h)@, r) == sampling_outcome(old(h)@, sample_view(sample)),
        old(h).wf() ==> final(h).wf(),
{
    match sample {
        Err(e) => {
            h.record_failure();
            SamplingAction::Fail(e)
        },
        Ok(values) => {
            match h.append(values) {
                Err(e) => {
                    h.record_failure();
                    SamplingAction::Fail(e)
                },
                Ok(()) => {
                    if h.is_running() {
                        SamplingAction::Sleep
                    } else {
                        SamplingAction::Finish
                    }
                },
            }
        },
    }
}

/// Whether the render loop ends after this frame: the sampling has failed,
/// or the key polled within the interval is a quit key.
pub open spec fn render_ends(h: HistoryView, key: Option<KeyInput>) -> bool {
    h.failed || (key matches Some(k) && quits(k))
}

/// One pass of the render loop after a frame is drawn, given the key polled
/// within the interval, if any: a quit key, or a failure recorded by the
/// sampling, stops the history and ends the loop.
pub fn render_step(h: &mut CpuFrequencyHistory, key: Option<KeyInput>) -> (r: RenderAction)
    ensures
        render_ends(old(h)@, key) ==> r == RenderAction::Quit && final(h)@ == stopped(old(h)@),
        !render_ends(old(h)@, key) ==> r == RenderAction::Redraw && final(h)@ == old(h)@,
        old(h).wf() ==> final(h).wf(),
{
    let quit = match key {
        Some(k) => is_quit_key(k),
        None => false,
    };
    if quit || h.has_failed() {
        h.stop();
        RenderAction::Quit
    } else {
        RenderAction::Redraw
    }
}

/// The result that a session reports once both loops are over: a render
/// failure first, else what the sampling loop ended with.
pub fn session_result<E>(render: Result<(), E>, sampling: Result<(), E>) -> (r: Result<(), E>)
    ensures
        render is Err ==> r == render,
        render is Ok ==> r == sampling,
{
    match render {
        Err(e) => Err(e),
        Ok(()) => sampling,
    }
}

} // verus!
