use vstd::prelude::*;
use crate::palette::{standard_glyphs, Palette};

verus! {

/// A failure that ends the whole session.
#[derive(Debug, Clone, Copy, PartialEq, Eq, Structural)]
pub enum SessionError {
    /// The source video could not be fetched.
    Acquisition,
    /// The audio track or the frames could not be extracted.
    Transcoding,
    /// The frame directory does not exist.
    FrameDirMissing,
    /// Not a single frame was found.
    SourceEmpty,
    /// The audio could not be opened, decoded or played.
    Audio,
    /// An event arrived in a phase that does not accept it.
    OutOfOrder,
}

/// Where a session stands: `Idle`, then `Armed` once the clock origin is
/// recorded, `Running` once audio and video are launched, and `Complete`
/// once both have finished.
#[derive(Debug, Clone, Copy, PartialEq, Eq, Structural)]
pub enum Phase {
    Idle,
    Armed,
    Running,
    Complete,
}

/// What the session controller is told.
#[derive(Debug, Clone, Copy, PartialEq, Eq, Structural)]
pub enum SessionEvent {
    /// The shared clock origin has been recorded.
    Arm,
    /// The audio task and the presentation scheduler have been started.
    Launch,
    /// The audio task has played to its end.
    AudioFinished,
    /// The presentation scheduler has dispatched its last frame.
    VideoFinished,
}

#[derive(Debug, Clone, Copy, PartialEq, Eq, Structural)]
pub struct Session {
    pub phase: Phase,
    pub audio_done: bool,
    pub video_done: bool,
}

/// The state after an event, or `None` when the phase does not accept it.
pub open spec fn next_session(s: Session, e: SessionEvent) -> Option<Session> {
    match (s.phase, e) {
        (Phase::Idle, SessionEvent::Arm) => Some(Session { phase: Phase::Armed, ..s }),
        (Phase::Armed, SessionEvent::Launch) => Some(Session { phase: Phase::Running, ..s }),
        (Phase::Running, SessionEvent::AudioFinished) => if s.audio_done {
            None
        } else {
            Some(
                Session {
                    phase: if s.video_done { Phase::Complete } else { Phase::Running },
                    audio_done: true,
                    ..s
                },
            )
        },
        (Phase::Running, SessionEvent::VideoFinished) => if s.video_done {
            None
        } else {
            Some(
                Session {
                    phase: if s.audio_done { Phase::Complete } else { Phase::Running },
                    video_done: true,
                    ..s
                },
            )
        },
        _ => None,
    }
}

impl Session {
    /// A session is complete exactly when both activities have finished, and
    /// neither has finished before the launch.
    pub open spec fn wf(&self) -> bool {
        &&& (self.phase == Phase::Complete <==> self.audio_done && self.video_done)
        &&& (self.phase == Phase::Idle || self.phase == Phase::Armed) ==> !self.audio_done
            && !self.video_done
    }

    pub fn new() -> (s: Session)
        ensures
            s.wf(),
            s.phase == Phase::Idle,
            !s.audio_done,
            !s.video_done,
    {
        Session { phase: Phase::Idle, audio_done: false, video_done: false }
    }

    /// Applies an event; one that the current phase does not accept leaves
    /// the session unchanged and gives `OutOfOrder`.
    pub fn step(&mut self, e: SessionEvent) -> (r: Result<(), SessionError>)
        requires
            old(self).wf(),
        ensures
            final(self).wf(),
            match next_session(*old(self), e) {
                Some(n) => r is Ok && *final(self) == n,
                None => r == Err::<(), SessionError>(SessionError::OutOfOrder) && *final(self) == *old(
                    self,
                ),
            },
    {
        match (self.phase, e) {
            (Phase::Idle, SessionEvent::Arm) => {
                self.phase = Phase::Armed;
                Ok(())
            },
            (Phase::Armed, SessionEvent::Launch) => {
                self.phase = Phase::Running;
                Ok(())
            },
            (Phase::Running, SessionEvent::AudioFinished) => {
                if self.audio_done {
                    Err(SessionError::OutOfOrder)
                } else {
                    self.audio_done = true;
                    if self.video_done {
                        self.phase = Phase::Complete;
                    }
                    Ok(())
                }
            },
            (Phase::Running, SessionEvent::VideoFinished) => {
                if self.video_done {
                    Err(SessionError::OutOfOrder)
                } else {
                    self.video_done = true;
                    if self.audio_done {
                        self.phase = Phase::Complete;
                    }
                    Ok(())
                }
            },
            _ => Err(SessionError::OutOfOrder),
        }
    }

    pub fn is_complete(&self) -> (r: bool)
        ensures
            r == (self.phase == Phase::Complete),
    {
        match self.phase {
            Phase::Complete => true,
            _ => false,
        }
    }
}

/// The only way from a launched session to `Complete` is through both the
/// audio and the video finishing, in either order.
pub proof fn lemma_complete_needs_both(s: Session, e: SessionEvent)
    requires
        s.wf(),
        s.phase != Phase::Complete,
        next_session(s, e) matches Some(n) && n.phase == Phase::Complete,
    ensures
        s.phase == Phase::Running,
        e == SessionEvent::AudioFinished ==> s.video_done,
        e == SessionEvent::VideoFinished ==> s.audio_done,
        e == SessionEvent::AudioFinished || e == SessionEvent::VideoFinished,
{
}

/// Output resolution, frame rate and palette of a session.
#[derive(Debug)]
pub struct PlaybackConfig {
    pub width: u32,
    pub height: u32,
    pub fps: u64,
    pub palette: Palette,
}

pub const STANDARD_WIDTH: u32 = 140;
pub const STANDARD_HEIGHT: u32 = 52;
pub const STANDARD_FPS: u64 = 30;

impl PlaybackConfig {
    pub open spec fn wf(&self) -> bool {
        self.fps > 0 && self.palette.wf()
    }

    /// A configuration, or `None` when the frame rate is zero.
    pub fn new(width: u32, height: u32, fps: u64, palette: Palette) -> (r: Option<PlaybackConfig>)
        requires
            palette.wf(),
        ensures
            r is Some <==> fps > 0,
            r matches Some(c) ==> c.wf() && c.width == width && c.height == height && c.fps == fps
                && c.palette@ == palette@,
    {
        if fps > 0 {
            Some(PlaybackConfig { width, height, fps, palette })
        } else {
            None
        }
    }

    /// 140 by 52 glyphs at 30 frames per second, with the standard palette.
    pub fn standard() -> (c: PlaybackConfig)
        ensures
            c.wf(),
            c.width == 140,
            c.height == 52,
            c.fps == 30,
            c.palette@ == standard_glyphs(),
    {
        PlaybackConfig {
            width: STANDARD_WIDTH,
            height: STANDARD_HEIGHT,
            fps: STANDARD_FPS,
            palette: Palette::standard(),
        }
    }

    /// The frame interval: `1000 / fps` milliseconds, rounded down.
    pub fn frame_interval_ms(&self) -> (ms: u64)
        requires
            self.wf(),
        ensures
            ms == 1000u64 / self.fps,
    {
        1000 / self.fps
    }
}

} // verus!
