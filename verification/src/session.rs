//! The render session: run state, frame clock, and the bound pipeline state,
//! together with the event handling and the per-iteration step of the render
//! loop.
//!
//! The loop itself is a fold: each iteration drains the pending window events
//! in delivery order, applies each one to the session, and, if the session is
//! still running, ticks the clock and describes the one draw submission of
//! that iteration. The windowing and GPU layer performs the described calls
//! and feeds the next batch of events back in.

use vstd::prelude::*;
use crate::clock::FrameClock;
use crate::clock::TICK_INCREMENT;

verus! {

/// A window or input event, already reduced to the taxonomy the loop
/// distinguishes.
#[derive(Clone, Copy, PartialEq, Eq, Structural, Debug)]
pub enum Event {
    /// The escape key was pressed.
    EscapePressed,
    /// The window manager asked the window to close.
    CloseRequested,
    /// The window was resized to the given pixel dimensions.
    Resized { width: u32, height: u32 },
    /// Any other event: ignored.
    Other,
}

/// Whether the loop keeps running. `Stopped` is terminal: nothing sets a
/// session back to `Running`.
#[derive(Clone, Copy, PartialEq, Eq, Structural, Debug)]
pub enum RunState {
    Running,
    Stopped,
}

/// The render-target view bound to the pipeline's color output, reduced to
/// its pixel dimensions. A resize rebuilds the underlying view and rebinds
/// it here.
#[derive(Clone, Copy, PartialEq, Eq, Structural, Debug)]
pub struct TargetView {
    pub width: u32,
    pub height: u32,
}

/// The bound tuple handed to every draw: pipeline program, vertex buffer,
/// the current time uniform, and the render-target view. The program and the
/// vertex buffer are created once and never replaced; the target view is the
/// only binding an event may change; the time is rewritten every iteration.
#[derive(Clone, Copy, PartialEq, Eq, Structural, Debug)]
pub struct PipelineState {
    /// Identity of the compiled pipeline program, as the graphics layer names it.
    pub pipeline_id: u64,
    /// Identity of the uploaded quad vertex buffer.
    pub vertex_buffer_id: u64,
    /// The time uniform value of the most recent draw.
    pub time: u64,
    /// The color render-target view drawn into.
    pub target: TargetView,
}

/// One draw submission: clear, draw the quad with this time uniform into a
/// target of these dimensions, submit, present.
#[derive(Clone, Copy, PartialEq, Eq, Structural, Debug)]
pub struct Frame {
    pub time: u64,
    pub width: u32,
    pub height: u32,
}

/// Everything the render loop reads and writes between iterations.
#[derive(Clone, Copy, PartialEq, Eq, Structural, Debug)]
pub struct Session {
    pub run: RunState,
    pub clock: FrameClock,
    pub pipeline: PipelineState,
}

impl Session {
    /// A session as it stands right after setup: running, clock at zero,
    /// bound to the given pipeline, vertex buffer, and initial target size.
    pub open spec fn spec_new(
        pipeline_id: u64,
        vertex_buffer_id: u64,
        width: u32,
        height: u32,
    ) -> Session {
        Session {
            run: RunState::Running,
            clock: FrameClock::spec_new(),
            pipeline: PipelineState {
                pipeline_id,
                vertex_buffer_id,
                time: 0,
                target: TargetView { width, height },
            },
        }
    }

    /// What a single event does to the session: escape and close stop it, a
    /// resize rebinds the target view, everything else is a no-op.
    pub open spec fn spec_apply_event(self, e: Event) -> Session {
        match e {
            Event::EscapePressed => Session { run: RunState::Stopped, ..self },
            Event::CloseRequested => Session { run: RunState::Stopped, ..self },
            Event::Resized { width, height } => Session {
                pipeline: PipelineState {
                    target: TargetView { width, height },
                    ..self.pipeline
                },
                ..self
            },
            Event::Other => self,
        }
    }

    /// Folding a whole drained batch of events over the session, in delivery
    /// order.
    pub open spec fn spec_apply_events(self, events: Seq<Event>) -> Session
        decreases events.len(),
    {
        if events.len() == 0 {
            self
        } else {
            self.spec_apply_event(events[0]).spec_apply_events(events.drop_first())
        }
    }

    /// The draw submission described by the current state.
    pub open spec fn spec_frame(self) -> Frame {
        Frame {
            time: self.pipeline.time,
            width: self.pipeline.target.width,
            height: self.pipeline.target.height,
        }
    }

    /// The update-and-draw half of an iteration: tick the clock, publish the
    /// new time as the uniform, and describe the frame — or do nothing at all
    /// when the session has stopped.
    pub open spec fn spec_step(self) -> (Session, Option<Frame>) {
        if self.run == RunState::Stopped {
            (self, None)
        } else {
            let ticked = Session {
                clock: self.clock.spec_tick(),
                pipeline: PipelineState { time: self.clock.spec_tick().time, ..self.pipeline },
                ..self
            };
            (ticked, Some(ticked.spec_frame()))
        }
    }

    /// One full loop iteration: drain the pending events, then update and
    /// draw if still running.
    pub open spec fn spec_iteration(self, events: Seq<Event>) -> (Session, Option<Frame>) {
        self.spec_apply_events(events).spec_step()
    }

    /// The whole loop over a schedule of event batches, one batch per
    /// iteration: it runs until the schedule is exhausted or the session
    /// stops, and collects every frame that was drawn.
    pub open spec fn spec_run(self, batches: Seq<Vec<Event>>) -> (Session, Seq<Frame>)
        decreases batches.len(),
    {
        if self.run == RunState::Stopped || batches.len() == 0 {
            (self, Seq::empty())
        } else {
            let (s1, f) = self.spec_iteration(batches[0]@);
            let (s2, rest) = s1.spec_run(batches.drop_first());
            match f {
                Some(fr) => (s2, seq![fr] + rest),
                None => (s2, rest),
            }
        }
    }

    pub fn new(pipeline_id: u64, vertex_buffer_id: u64, width: u32, height: u32) -> (s: Session)
        ensures
            s == Session::spec_new(pipeline_id, vertex_buffer_id, width, height),
    {
        Session {
            run: RunState::Running,
            clock: FrameClock::new(),
            pipeline: PipelineState {
                pipeline_id,
                vertex_buffer_id,
                time: 0,
                target: TargetView { width, height },
            },
        }
    }

    /// Apply one event to the session.
    pub fn apply_event(&mut self, e: Event)
        ensures
            *final(self) == old(self).spec_apply_event(e),
    {
        match e {
            Event::EscapePressed => {
                self.run = RunState::Stopped;
            },
            Event::CloseRequested => {
                self.run = RunState::Stopped;
            },
            Event::Resized { width, height } => {
                self.pipeline.target = TargetView { width, height };
            },
            Event::Other => {},
        }
    }

    /// Apply a whole drained batch of events, in delivery order.
    pub fn apply_events(&mut self, events: &Vec<Event>)
        ensures
            *final(self) == old(self).spec_apply_events(events@),
    {
        let mut i: usize = 0;
        while i < events.len()
            invariant
                i <= events.len(),
                *self == old(self).spec_apply_events(events@.take(i as int)),
            decreases events.len() - i,
        {
            proof {
                lemma_apply_events_snoc(*old(self), events@.take(i as int), events@[i as int]);
                assert(events@.take(i as int).push(events@[i as int]) =~= events@.take(
                    i as int + 1,
                ));
            }
            self.apply_event(events[i]);
            i = i + 1;
        }
        proof {
            assert(events@.take(events@.len() as int) =~= events@);
        }
    }

    /// Tick the clock, publish the new time uniform, and return the draw to
    /// perform — or `None` when the session has stopped, in which case the
    /// session is left untouched and no draw or present must follow.
    pub fn step(&mut self) -> (f: Option<Frame>)
        requires
            old(self).clock.time + TICK_INCREMENT <= u64::MAX,
        ensures
            (*final(self), f) == old(self).spec_step(),
    {
        if self.run == RunState::Stopped {
            return None;
        }
        let t = self.clock.tick();
        self.pipeline.time = t;
        Some(
            Frame {
                time: t,
                width: self.pipeline.target.width,
                height: self.pipeline.target.height,
            },
        )
    }

    /// One full loop iteration: drain the given events, then update and draw
    /// if still running.
    pub fn run_iteration(&mut self, events: &Vec<Event>) -> (f: Option<Frame>)
        requires
            old(self).clock.time + TICK_INCREMENT <= u64::MAX,
        ensures
            (*final(self), f) == old(self).spec_iteration(events@),
    {
        proof {
            lemma_events_leave_bindings(*old(self), events@);
        }
        self.apply_events(events);
        self.step()
    }

    /// Drive the loop over a schedule of event batches until the schedule is
    /// exhausted or the session stops; return every frame that was drawn.
    pub fn run_loop(&mut self, batches: &Vec<Vec<Event>>) -> (frames: Vec<Frame>)
        requires
            old(self).clock.time + TICK_INCREMENT * batches@.len() <= u64::MAX,
        ensures
            (*final(self), frames@) == old(self).spec_run(batches@),
    {
        let mut frames: Vec<Frame> = Vec::new();
        let mut i: usize = 0;
        proof {
            assert(batches@.skip(0) =~= batches@);
            assert(frames@ + old(self).spec_run(batches@).1 =~= old(self).spec_run(batches@).1);
        }
        while i < batches.len() && self.run == RunState::Running
            invariant
                i <= batches.len(),
                self.clock.time + TICK_INCREMENT * (batches@.len() - i) <= u64::MAX,
                old(self).spec_run(batches@).0 == self.spec_run(batches@.skip(i as int)).0,
                old(self).spec_run(batches@).1 == frames@ + self.spec_run(
                    batches@.skip(i as int),
                ).1,
            decreases batches.len() - i,
        {
            let ghost pre = *self;
            let ghost remaining = batches@.skip(i as int);
            let f = self.run_iteration(&batches[i]);
            proof {
                assert(remaining[0] == batches@[i as int]);
                assert(remaining.drop_first() =~= batches@.skip(i as int + 1));
                lemma_iteration_clock_bound(pre, batches@[i as int]@);
            }
            match f {
                Some(fr) => {
                    frames.push(fr);
                    proof {
                        assert(pre.spec_run(remaining).1 == seq![fr] + self.spec_run(
                            remaining.drop_first(),
                        ).1);
                        assert(old(self).spec_run(batches@).1 =~= frames@ + self.spec_run(
                            batches@.skip(i as int + 1),
                        ).1);
                    }
                },
                None => {},
            }
            i = i + 1;
        }
        proof {
            assert(self.spec_run(batches@.skip(i as int)) == (
                *self,
                Seq::<Frame>::empty(),
            ));
            assert(old(self).spec_run(batches@).1 =~= frames@);
        }
        frames
    }
}

/// Folding a batch and then one more event is the same as folding the batch
/// extended by that event.
pub proof fn lemma_apply_events_snoc(s: Session, events: Seq<Event>, e: Event)
    ensures
        s.spec_apply_events(events.push(e)) == s.spec_apply_events(events).spec_apply_event(e),
    decreases events.len(),
{
    if events.len() == 0 {
        let s1 = s.spec_apply_event(e);
        assert(events.push(e)[0] == e);
        assert(events.push(e).drop_first() =~= Seq::<Event>::empty());
        assert(s1.spec_apply_events(Seq::<Event>::empty()) == s1);
        assert(s.spec_apply_events(events) == s);
        assert(s.spec_apply_events(events.push(e)) == s1);
    } else {
        let s1 = s.spec_apply_event(events[0]);
        assert(events.push(e)[0] == events[0]);
        assert(events.push(e).drop_first() =~= events.drop_first().push(e));
        lemma_apply_events_snoc(s1, events.drop_first(), e);
        assert(s.spec_apply_events(events.push(e)) == s1.spec_apply_events(
            events.drop_first().push(e),
        ));
        assert(s.spec_apply_events(events) == s1.spec_apply_events(events.drop_first()));
    }
}

/// Event handling never touches the clock, the time uniform, or the
/// identities of the pipeline program and the vertex buffer: only the run
/// state and the bound target view can change.
pub proof fn lemma_events_leave_bindings(s: Session, events: Seq<Event>)
    ensures
        s.spec_apply_events(events).clock == s.clock,
        s.spec_apply_events(events).pipeline.time == s.pipeline.time,
        s.spec_apply_events(events).pipeline.pipeline_id == s.pipeline.pipeline_id,
        s.spec_apply_events(events).pipeline.vertex_buffer_id == s.pipeline.vertex_buffer_id,
    decreases events.len(),
{
    if events.len() > 0 {
        lemma_events_leave_bindings(s.spec_apply_event(events[0]), events.drop_first());
    }
}

/// Resize law: a resize event changes only the bound render-target view.
/// The pipeline program and vertex buffer keep their identities, the run
/// state and clock are untouched, and the new target has exactly the event's
/// dimensions — so while the session keeps running, the next draw after the
/// resize is submitted into a target of those dimensions.
pub proof fn lemma_resize_updates_target_only(s: Session, width: u32, height: u32)
    requires
        width > 0,
        height > 0,
    ensures
        ({
            let s2 = s.spec_apply_event(Event::Resized { width, height });
            &&& s2.pipeline.pipeline_id == s.pipeline.pipeline_id
            &&& s2.pipeline.vertex_buffer_id == s.pipeline.vertex_buffer_id
            &&& s2.pipeline.time == s.pipeline.time
            &&& s2.run == s.run
            &&& s2.clock == s.clock
            &&& s2.pipeline.target == (TargetView { width, height })
            &&& (s2.run == RunState::Running ==> {
                let (s3, f) = s2.spec_step();
                &&& f is Some
                &&& f->0.width == width
                &&& f->0.height == height
                &&& s3.pipeline.pipeline_id == s.pipeline.pipeline_id
                &&& s3.pipeline.vertex_buffer_id == s.pipeline.vertex_buffer_id
            })
        }),
{
}

/// Termination law: `Stopped` is terminal. A stopped session is left exactly
/// as it is by the update-and-draw step, which draws nothing; no event sets
/// it running again; and the loop, given any further schedule, returns at
/// once without drawing a single frame.
pub proof fn lemma_stopped_is_terminal(s: Session, events: Seq<Event>, batches: Seq<Vec<Event>>)
    requires
        s.run == RunState::Stopped,
    ensures
        s.spec_step() == (s, Option::<Frame>::None),
        s.spec_apply_events(events).run == RunState::Stopped,
        s.spec_run(batches) == (s, Seq::<Frame>::empty()),
    decreases events.len(),
{
    if events.len() > 0 {
        lemma_stopped_is_terminal(s.spec_apply_event(events[0]), events.drop_first(), batches);
    }
}

/// Close/escape law: if any event of a drained batch asks the session to
/// stop, that very iteration performs no draw — the session is stopped by
/// the time the update-and-draw step runs, so the step yields no frame.
pub proof fn lemma_stop_event_suppresses_draw(s: Session, events: Seq<Event>, i: int)
    requires
        0 <= i < events.len(),
        events[i] == Event::CloseRequested || events[i] == Event::EscapePressed,
    ensures
        s.spec_apply_events(events).run == RunState::Stopped,
        s.spec_iteration(events) == (s.spec_apply_events(events), Option::<Frame>::None),
    decreases i,
{
    if i == 0 {
        lemma_stopped_is_terminal(
            s.spec_apply_event(events[0]),
            events.drop_first(),
            Seq::empty(),
        );
    } else {
        lemma_stop_event_suppresses_draw(s.spec_apply_event(events[0]), events.drop_first(), i - 1);
    }
}

/// One iteration advances the clock by at most the fixed increment.
pub proof fn lemma_iteration_clock_bound(s: Session, events: Seq<Event>)
    requires
        s.clock.time + TICK_INCREMENT <= u64::MAX,
    ensures
        s.spec_iteration(events).0.clock.time <= s.clock.time + TICK_INCREMENT,
{
    lemma_events_leave_bindings(s, events);
}

} // verus!
