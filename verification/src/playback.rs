//! The playback loop as a state machine.
//!
//! The machine never touches a terminal, a file or a clock itself. It is
//! handed events and answers each one with the effects that its driver has to
//! carry out, in order. The last effect of an answer may call for a reply:
//! after `Effect::ShowFrame` the driver reports `Event::Rendered` with the
//! time the frame took, or `Event::Failed`.

use vstd::prelude::*;
use crate::config::Failure;
use crate::source::FrameSource;
use crate::span::Span;
use crate::timeline::{FrameTimeline, Timeline};

verus! {

/// The stage of a session.
#[derive(Clone, Copy, Debug, PartialEq, Eq, Structural)]
pub enum Phase {
    /// Nothing has been acquired yet.
    Idle,
    /// Frames are being shown.
    Running,
    /// Every frame was shown, or skipped, and the session was torn down.
    Completed,
    /// The session was cut short and torn down.
    Aborted,
}

/// Why a session was cut short.
#[derive(Clone, Copy, Debug, PartialEq, Eq, Structural)]
pub enum Cause {
    /// A frame could not be decoded, or the output stream broke.
    Failure,
    /// The user interrupted the session.
    Interrupt,
}

/// What the driver reports to the machine.
#[derive(Clone, Copy, Debug, PartialEq, Eq, Structural)]
pub enum Event {
    /// Begin the session.
    Start,
    /// The frame asked for is on screen; fetching and drawing it took
    /// `elapsed`.
    Rendered { elapsed: Span },
    /// The frame asked for could not be shown.
    Failed,
    /// An interrupt signal arrived.
    Interrupted,
}

/// What the machine asks of its driver.
#[derive(Clone, Copy, Debug, PartialEq, Eq, Structural)]
pub enum Effect {
    /// Hide the terminal cursor.
    HideCursor,
    /// Show the terminal cursor again.
    ShowCursor,
    /// Clear the screen.
    ClearScreen,
    /// Create the temporary workspace.
    CreateWorkspace,
    /// Extract the frames `0..count` into the workspace, in any order.
    ExtractFrames { count: u32 },
    /// Extract the audio track and start playing it; a video without one
    /// plays silently.
    PlayAudio,
    /// Move the cursor to where each frame begins.
    HomeCursor,
    /// Fetch frame `index`, draw it, and report how long that took.
    ShowFrame { index: u32 },
    /// Wait for `span`.
    Sleep { span: Span },
    /// Delete the temporary workspace; one that is already gone is no error.
    RemoveWorkspace,
}

/// The mathematical content of a [`Playback`].
pub struct PlaybackState {
    pub timeline: Timeline,
    pub audio: bool,
    pub phase: Phase,
    /// The frame index that is shown next.
    pub frame: nat,
    /// The number of frames by which the index moves per frame shown.
    pub increment: nat,
    pub cause: Option<Cause>,
}

impl PlaybackState {
    /// The state before anything has happened.
    pub open spec fn initial(timeline: Timeline, audio: bool) -> PlaybackState {
        PlaybackState { timeline, audio, phase: Phase::Idle, frame: 0, increment: 1, cause: None }
    }

    /// What holds of every state that a session can reach.
    pub open spec fn wf(self) -> bool {
        &&& self.timeline.wf()
        &&& 1 <= self.increment <= self.frame + 1
        &&& self.frame <= 2 * self.timeline.total_frames
        &&& self.phase is Idle ==> self.frame == 0
        &&& self.phase is Running ==> self.frame < self.timeline.total_frames
        &&& self.phase is Completed ==> self.frame >= self.timeline.total_frames
        &&& self.phase is Aborted <==> self.cause is Some
    }

    /// The session is over.
    pub open spec fn finished(self) -> bool {
        self.phase is Completed || self.phase is Aborted
    }

    /// The temporary workspace exists: it is created when the session starts
    /// and deleted when it ends, however it ends.
    pub open spec fn workspace_present(self) -> bool {
        self.phase is Running
    }

    /// The increment after a frame that took `elapsed_nanos`: unchanged when
    /// the frame was done within the time allotted to the frames it stands
    /// for, one more when it was not.
    pub open spec fn paced_increment(self, elapsed_nanos: nat) -> nat {
        if self.timeline.within_budget(self.increment, elapsed_nanos) {
            self.increment
        } else {
            self.increment + 1
        }
    }

    /// The wait after a frame that took `elapsed_nanos`: the rest of the
    /// allotted time when there is any, nothing otherwise.
    pub open spec fn paced_sleep(self, elapsed_nanos: nat) -> Seq<Effect> {
        if self.timeline.within_budget(self.increment, elapsed_nanos) {
            let rest: nat = self.timeline.remaining_nanos(self.increment, elapsed_nanos);
            seq![
                Effect::Sleep {
                    span: Span {
                        secs: (rest / 1_000_000_000) as u64,
                        nanos: (rest % 1_000_000_000) as u32,
                    },
                },
            ]
        } else {
            Seq::empty()
        }
    }

    /// The state after `event`.
    pub open spec fn next(self, event: Event) -> PlaybackState {
        if self.finished() {
            self
        } else {
            match event {
                Event::Start => if self.phase is Idle {
                    if self.timeline.total_frames == 0 {
                        PlaybackState { phase: Phase::Completed, ..self }
                    } else {
                        PlaybackState { phase: Phase::Running, ..self }
                    }
                } else {
                    self
                },
                Event::Rendered { elapsed } => if self.phase is Running {
                    let increment: nat = self.paced_increment(elapsed.total_nanos());
                    let frame: nat = self.frame + increment;
                    PlaybackState {
                        phase: if frame < self.timeline.total_frames {
                            Phase::Running
                        } else {
                            Phase::Completed
                        },
                        frame,
                        increment,
                        ..self
                    }
                } else {
                    self
                },
                Event::Failed => PlaybackState {
                    phase: Phase::Aborted,
                    cause: Some(Cause::Failure),
                    ..self
                },
                Event::Interrupted => PlaybackState {
                    phase: Phase::Aborted,
                    cause: Some(Cause::Interrupt),
                    ..self
                },
            }
        }
    }

    /// What the driver has to do in answer to `event`, in order.
    pub open spec fn effects(self, source: FrameSource, event: Event) -> Seq<Effect> {
        if self.finished() {
            Seq::empty()
        } else {
            match event {
                Event::Start => if self.phase is Idle {
                    acquire(source, self.timeline.total_frames, self.audio) + self.next(
                        event,
                    ).resume()
                } else {
                    Seq::empty()
                },
                Event::Rendered { elapsed } => if self.phase is Running {
                    self.paced_sleep(elapsed.total_nanos()) + self.next(event).resume()
                } else {
                    Seq::empty()
                },
                Event::Failed => release(),
                Event::Interrupted => release(),
            }
        }
    }

    /// How a session goes on from this state once a step has been taken: with
    /// the next frame, drawn from the frame origin, while there is one, and
    /// with the teardown when there is none.
    pub open spec fn resume(self) -> Seq<Effect> {
        if self.phase is Running {
            seq![Effect::HomeCursor, Effect::ShowFrame { index: self.frame as u32 }]
        } else {
            release()
        }
    }

    /// The state after a run of events.
    pub open spec fn run(self, events: Seq<Event>) -> PlaybackState
        decreases events.len(),
    {
        if events.len() == 0 {
            self
        } else {
            self.run(events.drop_last()).next(events.last())
        }
    }

    /// The process exit status that the session calls for once it is over:
    /// zero after a completed or an interrupted session, and the status of a
    /// media file that cannot be decoded after a failure.
    pub open spec fn exit_status(self) -> Option<u8> {
        match self.phase {
            Phase::Completed => Some(0u8),
            Phase::Aborted => match self.cause {
                Some(Cause::Failure) => Some(Failure::UnknownFormat.status()),
                _ => Some(0u8),
            },
            _ => None,
        }
    }
}

/// The effects that set a session up: the terminal is prepared, the
/// workspace is created, the frames are extracted ahead of time where the
/// source calls for it, and the audio is started last, so that it begins as
/// close to the first frame as possible.
pub open spec fn acquire(source: FrameSource, total_frames: nat, audio: bool) -> Seq<Effect> {
    seq![Effect::HideCursor, Effect::ClearScreen, Effect::CreateWorkspace] + (if source
        is Prerender {
        seq![Effect::ExtractFrames { count: total_frames as u32 }]
    } else {
        Seq::empty()
    }) + (if audio {
        seq![Effect::PlayAudio]
    } else {
        Seq::empty()
    })
}

/// The effects that tear a session down. They are the same however the
/// session ends.
pub open spec fn release() -> Seq<Effect> {
    seq![Effect::ShowCursor, Effect::ClearScreen, Effect::RemoveWorkspace]
}

/// The position of a playback: which frame is next, and by how many frames
/// the position moves each time.
#[derive(Clone, Copy, Debug)]
pub struct PlaybackCursor {
    frame: u64,
    increment: u64,
}

impl PlaybackCursor {
    #[verifier::type_invariant]
    pub closed spec fn inv(self) -> bool {
        1 <= self.increment <= self.frame + 1 && self.frame <= 2 * (u32::MAX as int)
    }

    /// The index of the frame that is shown next.
    pub closed spec fn spec_frame(&self) -> u64 {
        self.frame
    }

    /// The number of frames by which the index moves per frame shown.
    pub closed spec fn spec_increment(&self) -> u64 {
        self.increment
    }

    /// The index of the frame that is shown next.
    #[verifier::when_used_as_spec(spec_frame)]
    pub fn frame(&self) -> (n: u64)
        ensures
            n == self.spec_frame(),
    {
        self.frame
    }

    /// The number of frames by which the index moves per frame shown. It is
    /// never less than one.
    #[verifier::when_used_as_spec(spec_increment)]
    pub fn increment(&self) -> (n: u64)
        ensures
            n == self.spec_increment(),
            n >= 1,
    {
        proof {
            use_type_invariant(self);
        }
        self.increment
    }
}

/// One playback session: its timeline, its position and its stage.
#[derive(Clone, Copy, Debug)]
pub struct Playback {
    timeline: FrameTimeline,
    audio: bool,
    phase: Phase,
    cursor: PlaybackCursor,
    cause: Option<Cause>,
}

impl View for Playback {
    type V = PlaybackState;

    closed spec fn view(&self) -> PlaybackState {
        PlaybackState {
            timeline: self.timeline@,
            audio: self.audio,
            phase: self.phase,
            frame: self.cursor.frame as nat,
            increment: self.cursor.increment as nat,
            cause: self.cause,
        }
    }
}

impl Playback {
    #[verifier::type_invariant]
    pub open spec fn inv(self) -> bool {
        self@.wf()
    }

    /// A session that has not started, for a video with the given timeline,
    /// with or without its audio track.
    pub fn new(timeline: FrameTimeline, audio: bool) -> (p: Playback)
        ensures
            p@ == PlaybackState::initial(timeline@, audio),
            p@.wf(),
    {
        proof {
            use_type_invariant(&timeline);
        }
        Playback {
            timeline,
            audio,
            phase: Phase::Idle,
            cursor: PlaybackCursor { frame: 0, increment: 1 },
            cause: None,
        }
    }

    /// The stage that the session is in.
    pub fn phase(&self) -> (p: Phase)
        ensures
            p == self@.phase,
    {
        self.phase
    }

    /// The position of the playback.
    pub fn cursor(&self) -> (c: PlaybackCursor)
        ensures
            c.frame() == self@.frame,
            c.increment() == self@.increment,
    {
        self.cursor
    }

    /// The timeline that the session plays.
    pub fn timeline(&self) -> (t: FrameTimeline)
        ensures
            t@ == self@.timeline,
    {
        self.timeline
    }

    /// Whether the temporary workspace exists at this point.
    pub fn workspace_present(&self) -> (b: bool)
        ensures
            b == self@.workspace_present(),
    {
        match self.phase {
            Phase::Running => true,
            _ => false,
        }
    }

    /// The exit status that the process is to end with, once the session is
    /// over.
    pub fn exit_status(&self) -> (s: Option<u8>)
        ensures
            s == self@.exit_status(),
    {
        match self.phase {
            Phase::Completed => Some(0u8),
            Phase::Aborted => match self.cause {
                Some(Cause::Failure) => Some(Failure::UnknownFormat.exit_status()),
                _ => Some(0u8),
            },
            _ => None,
        }
    }

    /// Takes one step: moves the session on by `event` and returns what the
    /// driver has to do next, in order.
    pub fn step(&mut self, source: FrameSource, event: Event) -> (todo: Vec<Effect>)
        ensures
            final(self)@ == old(self)@.next(event),
            todo@ == old(self)@.effects(source, event),
            final(self)@.wf(),
    {
        proof {
            use_type_invariant(&*self);
            use_type_invariant(&self.timeline);
            use_type_invariant(&self.cursor);
        }
        let mut todo: Vec<Effect> = Vec::new();
        match self.phase {
            Phase::Completed | Phase::Aborted => {
                return todo;
            },
            _ => {},
        }
        let total: u32 = self.timeline.total_frames();
        match event {
            Event::Start => {
                match self.phase {
                    Phase::Idle => {},
                    _ => {
                        return todo;
                    },
                }
                todo.push(Effect::HideCursor);
                todo.push(Effect::ClearScreen);
                todo.push(Effect::CreateWorkspace);
                match source {
                    FrameSource::Prerender => {
                        todo.push(Effect::ExtractFrames { count: total });
                    },
                    FrameSource::Streaming => {},
                }
                if self.audio {
                    todo.push(Effect::PlayAudio);
                }
                if total == 0 {
                    *self = Playback { phase: Phase::Completed, ..*self };
                    push_release(&mut todo);
                } else {
                    *self = Playback { phase: Phase::Running, ..*self };
                    todo.push(Effect::HomeCursor);
                    todo.push(Effect::ShowFrame { index: 0 });
                }
                assert(todo@ =~= old(self)@.effects(source, event));
            },
            Event::Rendered { elapsed } => {
                match self.phase {
                    Phase::Running => {},
                    _ => {
                        return todo;
                    },
                }
                let frame: u64 = self.cursor.frame;
                let mut increment: u64 = self.cursor.increment;
                match self.timeline.pace(increment as u32, elapsed) {
                    Some(span) => {
                        proof {
                            let rest: nat = old(self)@.timeline.remaining_nanos(
                                increment as nat,
                                elapsed.total_nanos(),
                            );
                            assert(rest / 1_000_000_000 <= u64::MAX) by {
                                assert(span.total_nanos() == rest);
                            }
                            assert(span.secs == (rest / 1_000_000_000) as u64);
                            assert(span.nanos == (rest % 1_000_000_000) as u32);
                        }
                        todo.push(Effect::Sleep { span });
                    },
                    None => {
                        increment = increment + 1;
                    },
                }
                let next: u64 = frame + increment;
                let cursor = PlaybackCursor { frame: next, increment };
                if next < total as u64 {
                    *self = Playback { phase: Phase::Running, cursor, ..*self };
                    todo.push(Effect::HomeCursor);
                    todo.push(Effect::ShowFrame { index: next as u32 });
                } else {
                    *self = Playback { phase: Phase::Completed, cursor, ..*self };
                    push_release(&mut todo);
                }
                assert(todo@ =~= old(self)@.effects(source, event));
            },
            Event::Failed => {
                *self = Playback { phase: Phase::Aborted, cause: Some(Cause::Failure), ..*self };
                push_release(&mut todo);
            },
            Event::Interrupted => {
                *self = Playback { phase: Phase::Aborted, cause: Some(Cause::Interrupt), ..*self };
                push_release(&mut todo);
            },
        }
        todo
    }
}

/// Every step keeps a state well formed.
pub proof fn lemma_step_keeps_wf(s: PlaybackState, event: Event)
    requires
        s.wf(),
    ensures
        s.next(event).wf(),
{
}

/// The increment never decreases: whatever the event, it stays or grows by
/// one.
pub proof fn lemma_increment_never_decreases(s: PlaybackState, event: Event)
    ensures
        s.increment <= s.next(event).increment <= s.increment + 1,
{
}

/// Over a whole run of events the increment never decreases: after more
/// events it is at least what it was after fewer.
pub proof fn lemma_increment_monotonic(s: PlaybackState, events: Seq<Event>, earlier: int)
    requires
        0 <= earlier <= events.len(),
    ensures
        s.run(events.take(earlier)).increment <= s.run(events).increment,
    decreases events.len(),
{
    if earlier == events.len() {
        assert(events.take(earlier) =~= events);
    } else {
        let shorter = events.drop_last();
        assert(shorter.take(earlier) =~= events.take(earlier));
        lemma_increment_monotonic(s, shorter, earlier);
        lemma_increment_never_decreases(s.run(shorter), events.last());
    }
}

/// Each frame shown moves the position forward by the increment that holds
/// after that frame, which is at least one frame.
pub proof fn lemma_cursor_advances(s: PlaybackState, elapsed: Span)
    requires
        s.wf(),
        s.phase is Running,
    ensures
        s.next(Event::Rendered { elapsed }).frame == s.frame + s.next(
            Event::Rendered { elapsed },
        ).increment,
        s.next(Event::Rendered { elapsed }).frame > s.frame,
{
}

/// Every state that a session reaches from a well-formed one is well
/// formed.
pub proof fn lemma_run_keeps_wf(s: PlaybackState, events: Seq<Event>)
    requires
        s.wf(),
    ensures
        s.run(events).wf(),
        s.run(events).timeline == s.timeline,
    decreases events.len(),
{
    if events.len() > 0 {
        lemma_run_keeps_wf(s, events.drop_last());
        lemma_step_keeps_wf(s.run(events.drop_last()), events.last());
    }
}

/// A running session ends after finitely many steps, however long each
/// frame takes: once as many events have come in as there were frames left,
/// the session is over, and it has completed if every event was a frame
/// shown.
pub proof fn lemma_playback_terminates(s: PlaybackState, events: Seq<Event>)
    requires
        s.wf(),
        s.phase is Running,
        forall|i: int| 0 <= i < events.len() ==> !(events[i] is Start),
        events.len() >= s.timeline.total_frames - s.frame,
    ensures
        s.run(events).finished(),
        (forall|i: int| 0 <= i < events.len() ==> events[i] is Rendered) ==> s.run(events).phase
            is Completed,
{
    lemma_run_progress(s, events);
    lemma_run_keeps_wf(s, events);
}

/// After a run of events, none of them a start, a session that started out
/// running is over or is at least as many frames on as events have come in;
/// it is not cut short if every event was a frame shown.
proof fn lemma_run_progress(s: PlaybackState, events: Seq<Event>)
    requires
        s.wf(),
        s.phase is Running,
        forall|i: int| 0 <= i < events.len() ==> !(events[i] is Start),
    ensures
        s.run(events).finished() || (s.run(events).phase is Running && s.run(events).frame
            >= s.frame + events.len()),
        (forall|i: int| 0 <= i < events.len() ==> events[i] is Rendered) ==> !(s.run(events).phase
            is Aborted),
    decreases events.len(),
{
    if events.len() > 0 {
        let shorter = events.drop_last();
        lemma_run_progress(s, shorter);
        lemma_run_keeps_wf(s, shorter);
        if forall|i: int| 0 <= i < events.len() ==> events[i] is Rendered {
            assert forall|i: int| 0 <= i < shorter.len() implies shorter[i] is Rendered by {
                assert(shorter[i] == events[i]);
            }
            assert(events.last() is Rendered);
        }
        assert(!(events.last() is Start));
    }
}

/// A session that is over stays as it is and asks for nothing more.
pub proof fn lemma_finished_is_final(s: PlaybackState, source: FrameSource, event: Event)
    requires
        s.finished(),
    ensures
        s.next(event) == s,
        s.effects(source, event) == Seq::<Effect>::empty(),
{
}

/// The teardown runs exactly once: the step that ends the session closes with
/// it, and no other step removes the workspace.
pub proof fn lemma_release_exactly_once(s: PlaybackState, source: FrameSource, event: Event)
    requires
        s.wf(),
    ensures
        !s.finished() && s.next(event).finished() ==> {
            let todo = s.effects(source, event);
            &&& todo.len() >= 3
            &&& todo.subrange(todo.len() - 3, todo.len() as int) == release()
            &&& forall|i: int|
                0 <= i < todo.len() - 1 ==> todo[i] != Effect::RemoveWorkspace
        },
        s.finished() || !s.next(event).finished() ==> forall|i: int|
            0 <= i < s.effects(source, event).len() ==> s.effects(source, event)[i]
                != Effect::RemoveWorkspace,
        s.next(event).finished() ==> !s.next(event).workspace_present(),
{
    let todo = s.effects(source, event);
    if !s.finished() && s.next(event).finished() {
        assert(todo.subrange(todo.len() - 3, todo.len() as int) =~= release());
    }
}

/// Appends the teardown to `todo`.
fn push_release(todo: &mut Vec<Effect>)
    ensures
        final(todo)@ == old(todo)@ + release(),
{
    todo.push(Effect::ShowCursor);
    todo.push(Effect::ClearScreen);
    todo.push(Effect::RemoveWorkspace);
    assert(todo@ =~= old(todo)@ + release());
}

} // verus!
