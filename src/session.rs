//! Decisions of a capture session: finding the target window and settling
//! the outcome of capture.

use vstd::prelude::*;
use crate::schedule::{CaptureError, CapturedFrame, is_ordered_stream};

verus! {

/// How many times the target window is looked for before giving up.
pub const MAX_SEARCH_ATTEMPTS: u32 = 10;

/// Where the search for the target window stands.
#[derive(Debug, Clone, Copy, PartialEq, Eq, Structural)]
pub enum SearchState {
    /// Look for the window now, as attempt `attempt` (counted from 1).
    Searching { attempt: u32 },
    Found,
    /// Every attempt failed: the target is unavailable.
    Exhausted,
    /// Cancellation was requested before the attempt.
    Cancelled,
}

/// The next state after attempt `attempt`: cancellation, checked before the
/// attempt, wins; else a found window ends the search; else another attempt
/// follows a pause, until the attempts run out.
pub fn next_search_state(attempt: u32, cancelled: bool, found: bool) -> (r: SearchState)
    requires
        1 <= attempt <= MAX_SEARCH_ATTEMPTS,
    ensures
        cancelled ==> r == SearchState::Cancelled,
        !cancelled && found ==> r == SearchState::Found,
        !cancelled && !found && attempt < MAX_SEARCH_ATTEMPTS ==> r == (SearchState::Searching {
            attempt: (attempt + 1) as u32,
        }),
        !cancelled && !found && attempt == MAX_SEARCH_ATTEMPTS ==> r == SearchState::Exhausted,
{
    if cancelled {
        SearchState::Cancelled
    } else if found {
        SearchState::Found
    } else if attempt < MAX_SEARCH_ATTEMPTS {
        SearchState::Searching { attempt: attempt + 1 }
    } else {
        SearchState::Exhausted
    }
}

/// The frames a session goes on to assemble: an input failure during
/// capture is only reported, so the frames stand as sampled.
pub open spec fn settled(frames: Result<Vec<CapturedFrame>, CaptureError>, during_input_ok: bool) -> Result<
    Vec<CapturedFrame>,
    CaptureError,
> {
    frames
}

/// The frames a session goes on to assemble, given the outcome of frame
/// sampling and whether the during-capture input sequence succeeded.
pub fn settle_capture(frames: Result<Vec<CapturedFrame>, CaptureError>, during_input_ok: bool) -> (r: Result<
    Vec<CapturedFrame>,
    CaptureError,
>)
    ensures
        r == settled(frames, during_input_ok),
{
    frames
}

/// A failure of the during-capture input sequence does not abort frame
/// sampling: a complete ordered stream is still what the session assembles.
pub proof fn lemma_input_failure_keeps_frames(
    frames: Result<Vec<CapturedFrame>, CaptureError>,
    frame_count: u32,
)
    requires
        frames matches Ok(v) && is_ordered_stream(v@, frame_count),
    ensures
        settled(frames, false) matches Ok(w) && is_ordered_stream(w@, frame_count),
        settled(frames, false) == settled(frames, true),
{
}

} // verus!
