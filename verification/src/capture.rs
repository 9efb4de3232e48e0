//! Capture sessions and the frames that they wait for.

use vstd::prelude::*;

use crate::outputs::OutputMode;
use crate::screencopy::{capture_ready, CaptureSize};

verus! {

/// A running capture session.
#[derive(Clone, Copy, Debug, PartialEq, Eq, Structural)]
pub struct CaptureSession {
    pub id: u64,
    /// The output that it captures, while that is connected and has a mode.
    pub mode: Option<OutputMode>,
    /// Its client still has it.
    pub alive: bool,
}

/// The sessions and the frames asked for since the last one was drawn.
#[derive(Debug)]
pub struct CaptureSessions {
    pub sessions: Vec<CaptureSession>,
    pub pending_frames: Vec<u64>,
}

/// The buffer size that a session's client has to use.
#[derive(Clone, Copy, Debug, PartialEq, Eq, Structural)]
pub struct Constraints {
    pub session: u64,
    pub w: i32,
    pub h: i32,
}

/// The sessions that are alive, in order.
pub open spec fn alive_sessions(s: Seq<CaptureSession>) -> Seq<CaptureSession>
    decreases s.len(),
{
    if s.len() == 0 {
        Seq::empty()
    } else {
        let rest = alive_sessions(s.drop_last());
        if s.last().alive {
            rest.push(s.last())
        } else {
            rest
        }
    }
}

/// The constraints of a session, while its output has a mode.
pub open spec fn constraints_of(s: CaptureSession) -> Option<Constraints> {
    match s.mode {
        Some(m) => Some(Constraints { session: s.id, w: m.w, h: m.h }),
        None => None,
    }
}

/// The constraints of every live session.
pub open spec fn all_constraints(s: Seq<CaptureSession>) -> Seq<Constraints>
    decreases s.len(),
{
    if s.len() == 0 {
        Seq::empty()
    } else {
        let rest = all_constraints(s.drop_last());
        match constraints_of(s.last()) {
            Some(c) => if s.last().alive {
                rest.push(c)
            } else {
                rest
            },
            None => rest,
        }
    }
}

pub fn capture_constraints(s: &CaptureSession) -> (r: Option<Constraints>)
    ensures
        r == constraints_of(*s),
{
    match s.mode {
        Some(m) => Some(Constraints { session: s.id, w: m.w, h: m.h }),
        None => None,
    }
}

/// What happens to the frames that wait.
#[derive(Clone, Debug, PartialEq, Eq)]
pub enum FramesDue {
    /// They are read from the output's texture.
    Serve(Vec<u64>),
    /// There is nothing to read: they fail.
    Fail(Vec<u64>),
}

impl CaptureSessions {
    pub fn new() -> (s: Self)
        ensures
            s.sessions@.len() == 0,
            s.pending_frames@.len() == 0,
    {
        CaptureSessions { sessions: Vec::new(), pending_frames: Vec::new() }
    }

    /// Forgets the sessions that their clients have given up.
    pub fn cleanup_capture_sessions(&mut self)
        ensures
            final(self).sessions@ == alive_sessions(old(self).sessions@),
            final(self).pending_frames == old(self).pending_frames,
    {
        let mut rest: Vec<CaptureSession> = Vec::new();
        let mut i: usize = 0;
        assert(alive_sessions(self.sessions@.take(0)) =~= Seq::empty());
        while i < self.sessions.len()
            invariant
                0 <= i <= self.sessions@.len(),
                *self == *old(self),
                rest@ == alive_sessions(self.sessions@.take(i as int)),
            decreases self.sessions@.len() - i,
        {
            assert(self.sessions@.take(i + 1).drop_last() =~= self.sessions@.take(i as int));
            if self.sessions[i].alive {
                rest.push(self.sessions[i]);
            }
            i += 1;
        }
        assert(self.sessions@.take(i as int) =~= self.sessions@);
        self.sessions = rest;
    }

    /// A client starts a session. Returns the constraints it is told at once.
    pub fn new_session(&mut self, session: CaptureSession) -> (told: Option<Constraints>)
        ensures
            told == constraints_of(session),
            final(self).sessions@ == alive_sessions(old(self).sessions@.push(session)),
            final(self).pending_frames == old(self).pending_frames,
    {
        let told = capture_constraints(&session);
        self.sessions.push(session);
        self.cleanup_capture_sessions();
        told
    }

    /// The outputs changed: tells every live session the size it has to use now,
    /// and forgets the others.
    pub fn refresh_capture_constraints(&mut self) -> (told: Vec<Constraints>)
        ensures
            told@ == all_constraints(old(self).sessions@),
            final(self).sessions@ == alive_sessions(old(self).sessions@),
            final(self).pending_frames == old(self).pending_frames,
    {
        let mut told: Vec<Constraints> = Vec::new();
        let mut i: usize = 0;
        assert(all_constraints(self.sessions@.take(0)) =~= Seq::empty());
        while i < self.sessions.len()
            invariant
                0 <= i <= self.sessions@.len(),
                *self == *old(self),
                told@ == all_constraints(self.sessions@.take(i as int)),
            decreases self.sessions@.len() - i,
        {
            assert(self.sessions@.take(i + 1).drop_last() =~= self.sessions@.take(i as int));
            if self.sessions[i].alive {
                if let Some(c) = capture_constraints(&self.sessions[i]) {
                    told.push(c);
                }
            }
            i += 1;
        }
        assert(self.sessions@.take(i as int) =~= self.sessions@);
        self.cleanup_capture_sessions();
        told
    }

    /// A client asks for the next frame.
    pub fn frame(&mut self, frame: u64)
        ensures
            final(self).sessions == old(self).sessions,
            final(self).pending_frames@ == old(self).pending_frames@.push(frame),
    {
        self.pending_frames.push(frame);
    }

    /// Takes the waiting frames, oldest first, after a frame was drawn.
    pub fn process_capture_frames(&mut self, has_renderer: bool, has_texture: bool, size: CaptureSize) -> (due: FramesDue)
        ensures
            final(self).sessions == old(self).sessions,
            final(self).pending_frames@.len() == 0,
            match due {
                FramesDue::Serve(f) => f@ == old(self).pending_frames@,
                FramesDue::Fail(f) => f@ == old(self).pending_frames@,
            },
            due is Serve <==> (has_renderer && has_texture && size.width != 0 && size.height != 0),
    {
        let mut frames: Vec<u64> = Vec::new();
        std::mem::swap(&mut frames, &mut self.pending_frames);
        if capture_ready(has_renderer, has_texture, size) {
            FramesDue::Serve(frames)
        } else {
            FramesDue::Fail(frames)
        }
    }
}

/// The sessions that are kept are alive, and were there before.
pub proof fn law_cleanup_keeps_the_living(s: Seq<CaptureSession>, i: int)
    requires
        0 <= i < alive_sessions(s).len(),
    ensures
        alive_sessions(s)[i].alive,
        s.contains(alive_sessions(s)[i]),
    decreases s.len(),
{
    let init = s.drop_last();
    let rest = alive_sessions(init);
    assert(s[s.len() - 1] == s.last());
    if i < rest.len() {
        law_cleanup_keeps_the_living(init, i);
        let k = choose|k: int| 0 <= k < init.len() && init[k] == rest[i];
        assert(s[k] == rest[i]);
    }
}

/// A session that ended is forgotten; those that go on stay, in their order.
pub proof fn law_sessions_that_go_on(s: Seq<CaptureSession>)
    ensures
        alive_sessions(s) == s.filter(|c: CaptureSession| c.alive),
    decreases s.len(),
{
    let alive = |c: CaptureSession| c.alive;
    reveal(Seq::filter);
    if s.len() > 0 {
        law_sessions_that_go_on(s.drop_last());
    }
    assert(alive_sessions(s) =~= s.filter(alive));
}

/// Every session that goes on is told the size of its output, and only of its own.
pub proof fn law_session_is_told_its_size(s: Seq<CaptureSession>)
    ensures
        all_constraints(s) == s.filter(|c: CaptureSession| c.alive && c.mode is Some).map_values(
            |c: CaptureSession| Constraints { session: c.id, w: (c.mode->0).w, h: (c.mode->0).h },
        ),
    decreases s.len(),
{
    let told = |c: CaptureSession| c.alive && c.mode is Some;
    let make = |c: CaptureSession| Constraints { session: c.id, w: (c.mode->0).w, h: (c.mode->0).h };
    reveal(Seq::filter);
    if s.len() > 0 {
        law_session_is_told_its_size(s.drop_last());
    }
    assert(all_constraints(s) =~= s.filter(told).map_values(make));
}

} // verus!
