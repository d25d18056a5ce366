//! The display side's schedule once the poller has gone: the last image stays
//! up, and the window closes after a fixed delay.

use vstd::prelude::*;

verus! {

/// How long the display stays up after the source has closed, in milliseconds.
pub const CLOSE_DELAY_MS: u64 = 60000;

/// What the display does on a frame, given its close deadline.
#[derive(Debug, Clone, Copy, PartialEq, Eq, Structural)]
pub enum FrameAction {
    /// Nothing is scheduled.
    Idle,
    /// The deadline has passed: close the window.
    Close,
    /// Paint again once this many milliseconds have passed.
    RepaintAfter { ms: u64 },
}

/// The action of a frame at time `now`, with times in milliseconds.
pub fn frame_action(close_at: Option<u64>, now: u64) -> (r: FrameAction)
    ensures
        r == match close_at {
            None => FrameAction::Idle,
            Some(at) => if at < now {
                FrameAction::Close
            } else {
                FrameAction::RepaintAfter { ms: (at - now) as u64 }
            },
        },
{
    match close_at {
        None => FrameAction::Idle,
        Some(at) => if at < now {
            FrameAction::Close
        } else {
            FrameAction::RepaintAfter { ms: at - now }
        },
    }
}

/// The close deadline once the source is seen closed at time `now`: set at
/// the first sight, then kept as it is.
pub fn close_deadline(close_at: Option<u64>, now: u64) -> (r: u64)
    requires
        now + CLOSE_DELAY_MS <= u64::MAX,
    ensures
        r == match close_at {
            None => now + CLOSE_DELAY_MS,
            Some(at) => at as int,
        },
{
    match close_at {
        None => now + CLOSE_DELAY_MS,
        Some(at) => at,
    }
}

} // verus!
