//! What the viewer does between commits: wait after a finished replay, then
//! ask for the next commit or stop.

use vstd::prelude::*;

verus! {

/// How long the viewer waits after a replay, in multiples of the base speed.
pub const NEXT_COMMIT_WAIT: u64 = 100;

/// Where the viewer stands.
#[derive(Debug, Clone, Copy, PartialEq, Eq, Structural)]
pub enum SessionState {
    Playing,
    WaitingForNext { resume_at: u64 },
    Finished,
}

/// What the driver must do next.
#[derive(Debug, Clone, Copy, PartialEq, Eq, Structural)]
pub enum SessionAction {
    Nothing,
    /// Fetch the next commit and load it, or finish where there is none.
    LoadNext,
}

/// The viewer's next state and action at time `now_ms`: a quit request
/// finishes; a finished replay waits `NEXT_COMMIT_WAIT` times the base speed
/// where more commits can come, and finishes otherwise; once the wait is
/// over the next commit is asked for.
pub open spec fn session_step(
    state: SessionState,
    quit: bool,
    replay_finished: bool,
    has_more: bool,
    now_ms: nat,
    speed_ms: nat,
) -> (SessionState, SessionAction) {
    if quit {
        (SessionState::Finished, SessionAction::Nothing)
    } else {
        match state {
            SessionState::Playing => if !replay_finished {
                (state, SessionAction::Nothing)
            } else if has_more {
                let wait = speed_ms * NEXT_COMMIT_WAIT;
                let at: int = if now_ms + wait > u64::MAX {
                    u64::MAX as int
                } else {
                    now_ms + wait
                };
                (SessionState::WaitingForNext { resume_at: at as u64 }, SessionAction::Nothing)
            } else {
                (SessionState::Finished, SessionAction::Nothing)
            },
            SessionState::WaitingForNext { resume_at } => if now_ms < resume_at {
                (state, SessionAction::Nothing)
            } else if has_more {
                (SessionState::Playing, SessionAction::LoadNext)
            } else {
                (SessionState::Finished, SessionAction::Nothing)
            },
            SessionState::Finished => (state, SessionAction::Nothing),
        }
    }
}

/// The viewer's next state and action, as `session_step` states.
pub fn next_session_state(
    state: SessionState,
    quit: bool,
    replay_finished: bool,
    has_more: bool,
    now_ms: u64,
    speed_ms: u64,
) -> (r: (SessionState, SessionAction))
    ensures
        r == session_step(state, quit, replay_finished, has_more, now_ms as nat, speed_ms as nat),
{
    if quit {
        return (SessionState::Finished, SessionAction::Nothing);
    }
    match state {
        SessionState::Playing => {
            if !replay_finished {
                (state, SessionAction::Nothing)
            } else if has_more {
                assert(speed_ms as u128 * 100 <= u64::MAX as u128 * 100) by (nonlinear_arith);
                let at: u128 = now_ms as u128 + speed_ms as u128 * NEXT_COMMIT_WAIT as u128;
                let resume_at: u64 = if at > u64::MAX as u128 {
                    u64::MAX
                } else {
                    at as u64
                };
                (SessionState::WaitingForNext { resume_at }, SessionAction::Nothing)
            } else {
                (SessionState::Finished, SessionAction::Nothing)
            }
        },
        SessionState::WaitingForNext { resume_at } => {
            if now_ms < resume_at {
                (state, SessionAction::Nothing)
            } else if has_more {
                (SessionState::Playing, SessionAction::LoadNext)
            } else {
                (SessionState::Finished, SessionAction::Nothing)
            }
        },
        SessionState::Finished => (state, SessionAction::Nothing),
    }
}

} // verus!
