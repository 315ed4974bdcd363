//! The frame loop as a state machine.
//!
//! The scheduler receives one event at a time (a window event, or the outcome
//! of the last action it asked for) and answers with the next action. The
//! caller performs the action on the device and reports back. A frame pass is
//! the run of actions between a redraw tick and the next `Action::Idle`:
//! rebuild if needed, acquire an image, wait for that image's fence, submit
//! the render work and present, wait for the previous compute tick, dispatch
//! the next one. The render work of a pass therefore reads the particle
//! buffer as the dispatch of the previous pass left it: one tick of lag.
use vstd::prelude::*;
use crate::tracker::{FenceTracker, SlotState, last_in_flight, none_in_flight, lemma_last_in_flight};

verus! {

/// A surface size in pixels.
#[derive(Clone, Copy, Debug, PartialEq, Eq, Structural)]
pub struct Extent {
    pub width: u32,
    pub height: u32,
}

/// Why the loop stopped for good.
#[derive(Clone, Copy, Debug, PartialEq, Eq, Structural)]
pub enum Fault {
    RebuildFailed,
    AcquireFailed,
    FenceWaitFailed,
    SubmitFailed,
    ComputeWaitFailed,
    DispatchFailed,
    /// A rebuild produced no images.
    NoImages,
    /// The device handed out an image index outside the image set.
    ImageOutOfRange,
    /// An event that the current phase does not expect.
    UnexpectedEvent,
    /// The tick counter cannot count further.
    TickLimit,
}

/// What a fence drain leads to.
#[derive(Clone, Copy, Debug, PartialEq, Eq, Structural)]
pub enum DrainGoal {
    Close,
    Rebuild,
}

/// Where the scheduler stands; each phase but `Idle`, `Closed` and `Failed`
/// waits for the outcome of one action.
#[derive(Clone, Copy, Debug, PartialEq, Eq, Structural)]
pub enum Phase {
    /// Between passes, waiting for a window event.
    Idle,
    /// Waiting for the fence of the slot `current` before closing or rebuilding.
    Draining(DrainGoal),
    /// Closing, waiting for the last compute tick.
    DrainingCompute,
    Rebuilding,
    Acquiring,
    /// Waiting for the fence of the acquired image `current`.
    WaitingFence,
    /// Waiting for the render submission to image `current`.
    Submitting,
    WaitingCompute,
    Dispatching,
    Closed,
    Failed(Fault),
}

/// What the caller is to do next.
#[derive(Clone, Copy, Debug, PartialEq, Eq, Structural)]
pub enum Action {
    /// Nothing until the next window event.
    Idle,
    /// Rebuild the swap chain, framebuffers, pipeline and command buffers for
    /// this extent; report `Rebuilt`, `ExtentUnsupported` or `Failed`.
    Rebuild(Extent),
    /// Acquire the next image, without a timeout; report `Acquired`,
    /// `OutOfDate` or `Failed`.
    Acquire,
    /// Wait for the fence of this slot; report `FenceSignalled` or `Failed`.
    WaitFence(usize),
    /// Submit the command buffer of `image` after the work of slot
    /// `previous` and the acquisition, present it and signal a fence; report
    /// `Submitted`, `OutOfDate` or `Failed`. The work reads the particle
    /// buffer as dispatch `reads_tick` left it (0: as uploaded).
    Submit { image: usize, previous: usize, reads_tick: u64 },
    /// Wait for the pending compute dispatch; report `ComputeFinished` or `Failed`.
    WaitCompute,
    /// Dispatch compute tick `tick`; report `Dispatched` or `Failed`.
    Dispatch(u64),
    /// Every fence has been waited for: release the device objects and stop.
    Exit,
    /// Stop: the device is in a state that cannot be continued from.
    Halt(Fault),
}

/// What happened: a window event, or the outcome of the last action.
pub enum Event<C, F> {
    CloseRequested,
    CursorMoved,
    Resized(Extent),
    RedrawTick,
    /// The rebuild succeeded, with one command buffer per new image.
    Rebuilt(Vec<C>),
    /// The rebuild was refused for a transient extent; try again next tick.
    ExtentUnsupported,
    Acquired { image: usize, suboptimal: bool },
    /// The acquisition or the presentation found the swap chain stale.
    OutOfDate,
    FenceSignalled,
    /// The render work was submitted; its fence.
    Submitted(F),
    ComputeFinished,
    /// The compute tick was dispatched; its fence.
    Dispatched(F),
    /// The action failed in a way that no rebuild mends.
    Failed,
}

/// The scheduler's state, without device objects.
pub struct SchedulerView {
    pub slots: Seq<SlotState>,
    pub image_count: nat,
    /// The image of the last render submission.
    pub previous: usize,
    /// The image that the pass (or the drain) is working on.
    pub current: usize,
    pub needs_rebuild: bool,
    /// The size to rebuild for.
    pub extent: Extent,
    pub pending_compute: bool,
    /// How many compute ticks have been dispatched.
    pub dispatched: u64,
    pub phase: Phase,
}

/// The invariant of every state that a scheduler can reach.
pub open spec fn inv(s: SchedulerView) -> bool {
    &&& 0 < s.image_count <= usize::MAX
    &&& s.slots.len() == s.image_count
    &&& s.previous < s.image_count
    &&& s.current < s.image_count
    &&& (s.phase matches Phase::Draining(_) ==> s.slots[s.current as int] == SlotState::InFlight)
    &&& (s.phase == Phase::WaitingFence ==> s.slots[s.current as int] == SlotState::InFlight)
    &&& (s.phase == Phase::Submitting ==> s.slots[s.current as int] != SlotState::InFlight)
    &&& (s.phase == Phase::Rebuilding ==> none_in_flight(s.slots))
    &&& (s.phase == Phase::DrainingCompute ==> none_in_flight(s.slots) && s.pending_compute)
    &&& (s.phase == Phase::Closed ==> none_in_flight(s.slots) && !s.pending_compute)
    &&& (s.phase == Phase::Dispatching ==> !s.pending_compute && s.dispatched < u64::MAX)
    &&& (in_pass_or_idle(s.phase) ==> s.pending_compute == (s.dispatched > 0))
}

/// The phases in which a dispatched tick stays pending until the next pass
/// waits for it.
pub open spec fn in_pass_or_idle(p: Phase) -> bool {
    match p {
        Phase::Idle | Phase::Draining(_) | Phase::Rebuilding | Phase::Acquiring
        | Phase::WaitingFence | Phase::Submitting | Phase::WaitingCompute => true,
        _ => false,
    }
}

pub open spec fn fail(s: SchedulerView, f: Fault) -> (SchedulerView, Action) {
    (SchedulerView { phase: Phase::Failed(f), ..s }, Action::Halt(f))
}

/// Waits for the fences in flight one by one, highest slot first, then
/// rebuilds, or waits for the pending compute tick and exits.
pub open spec fn drain_step(s: SchedulerView, goal: DrainGoal) -> (SchedulerView, Action) {
    match last_in_flight(s.slots) {
        Some(i) => (
            SchedulerView { phase: Phase::Draining(goal), current: i as usize, ..s },
            Action::WaitFence(i as usize),
        ),
        None => match goal {
            DrainGoal::Rebuild => (
                SchedulerView { phase: Phase::Rebuilding, ..s },
                Action::Rebuild(s.extent),
            ),
            DrainGoal::Close => if s.pending_compute {
                (SchedulerView { phase: Phase::DrainingCompute, ..s }, Action::WaitCompute)
            } else {
                (SchedulerView { phase: Phase::Closed, ..s }, Action::Exit)
            },
        },
    }
}

pub open spec fn acquire_step(s: SchedulerView) -> (SchedulerView, Action) {
    (SchedulerView { phase: Phase::Acquiring, ..s }, Action::Acquire)
}

pub open spec fn submit_step(s: SchedulerView) -> (SchedulerView, Action) {
    (
        SchedulerView { phase: Phase::Submitting, ..s },
        Action::Submit { image: s.current, previous: s.previous, reads_tick: s.dispatched },
    )
}

pub open spec fn dispatch_step(s: SchedulerView) -> (SchedulerView, Action) {
    if s.dispatched < u64::MAX {
        (
            SchedulerView { phase: Phase::Dispatching, ..s },
            Action::Dispatch((s.dispatched + 1) as u64),
        )
    } else {
        fail(s, Fault::TickLimit)
    }
}

/// After the render submission: wait for the previous tick, if one is
/// pending, then dispatch the next.
pub open spec fn compute_step(s: SchedulerView) -> (SchedulerView, Action) {
    if s.pending_compute {
        (SchedulerView { phase: Phase::WaitingCompute, ..s }, Action::WaitCompute)
    } else {
        dispatch_step(s)
    }
}

pub open spec fn unexpected(s: SchedulerView) -> (SchedulerView, Action) {
    fail(s, Fault::UnexpectedEvent)
}

/// The scheduler's answer to event `e` in state `s`: the next state and the
/// next action.
pub open spec fn next<C, F>(s: SchedulerView, e: Event<C, F>) -> (SchedulerView, Action) {
    match s.phase {
        Phase::Idle => match e {
            Event::CloseRequested => drain_step(s, DrainGoal::Close),
            Event::CursorMoved => (s, Action::Idle),
            Event::Resized(x) => (
                SchedulerView { needs_rebuild: true, extent: x, ..s },
                Action::Idle,
            ),
            Event::RedrawTick => if s.needs_rebuild {
                drain_step(s, DrainGoal::Rebuild)
            } else {
                acquire_step(s)
            },
            _ => unexpected(s),
        },
        Phase::Draining(goal) => match e {
            Event::FenceSignalled => drain_step(
                SchedulerView {
                    slots: s.slots.update(s.current as int, SlotState::Observed),
                    ..s
                },
                goal,
            ),
            Event::Failed => fail(s, Fault::FenceWaitFailed),
            _ => unexpected(s),
        },
        Phase::DrainingCompute => match e {
            Event::ComputeFinished => (
                SchedulerView { pending_compute: false, phase: Phase::Closed, ..s },
                Action::Exit,
            ),
            Event::Failed => fail(s, Fault::ComputeWaitFailed),
            _ => unexpected(s),
        },
        Phase::Rebuilding => match e {
            Event::Rebuilt(cbs) => if cbs@.len() == 0 {
                fail(s, Fault::NoImages)
            } else {
                acquire_step(
                    SchedulerView {
                        slots: Seq::new(cbs@.len(), |_i: int| SlotState::Empty),
                        image_count: cbs@.len(),
                        previous: 0,
                        current: 0,
                        needs_rebuild: false,
                        ..s
                    },
                )
            },
            Event::ExtentUnsupported => (
                SchedulerView { needs_rebuild: true, phase: Phase::Idle, ..s },
                Action::Idle,
            ),
            Event::Failed => fail(s, Fault::RebuildFailed),
            _ => unexpected(s),
        },
        Phase::Acquiring => match e {
            Event::Acquired { image, suboptimal } => if image >= s.image_count {
                fail(s, Fault::ImageOutOfRange)
            } else {
                let t = SchedulerView {
                    current: image,
                    needs_rebuild: s.needs_rebuild || suboptimal,
                    ..s
                };
                if s.slots[image as int] == SlotState::InFlight {
                    (SchedulerView { phase: Phase::WaitingFence, ..t }, Action::WaitFence(image))
                } else {
                    submit_step(t)
                }
            },
            Event::OutOfDate => (
                SchedulerView { needs_rebuild: true, phase: Phase::Idle, ..s },
                Action::Idle,
            ),
            Event::Failed => fail(s, Fault::AcquireFailed),
            _ => unexpected(s),
        },
        Phase::WaitingFence => match e {
            Event::FenceSignalled => submit_step(
                SchedulerView {
                    slots: s.slots.update(s.current as int, SlotState::Observed),
                    ..s
                },
            ),
            Event::Failed => fail(s, Fault::FenceWaitFailed),
            _ => unexpected(s),
        },
        Phase::Submitting => match e {
            Event::Submitted(_) => compute_step(
                SchedulerView {
                    slots: s.slots.update(s.current as int, SlotState::InFlight),
                    previous: s.current,
                    ..s
                },
            ),
            Event::OutOfDate => compute_step(
                SchedulerView {
                    slots: s.slots.update(s.current as int, SlotState::Empty),
                    previous: s.current,
                    needs_rebuild: true,
                    ..s
                },
            ),
            Event::Failed => fail(s, Fault::SubmitFailed),
            _ => unexpected(s),
        },
        Phase::WaitingCompute => match e {
            Event::ComputeFinished => dispatch_step(SchedulerView { pending_compute: false, ..s }),
            Event::Failed => fail(s, Fault::ComputeWaitFailed),
            _ => unexpected(s),
        },
        Phase::Dispatching => match e {
            Event::Dispatched(_) => (
                SchedulerView {
                    pending_compute: true,
                    dispatched: (s.dispatched + 1) as u64,
                    phase: Phase::Idle,
                    ..s
                },
                Action::Idle,
            ),
            Event::Failed => fail(s, Fault::DispatchFailed),
            _ => unexpected(s),
        },
        Phase::Closed => (s, Action::Exit),
        Phase::Failed(f) => (s, Action::Halt(f)),
    }
}

/// An event that an executable value can be: a `Vec` holds at most
/// `usize::MAX` items.
pub open spec fn event_fits<C, F>(e: Event<C, F>) -> bool {
    e matches Event::Rebuilt(cbs) ==> cbs@.len() <= usize::MAX
}

/// The state in which a scheduler starts, before any event.
pub open spec fn initial(image_count: nat, extent: Extent) -> SchedulerView {
    SchedulerView {
        slots: Seq::new(image_count, |_i: int| SlotState::Empty),
        image_count,
        previous: 0,
        current: 0,
        needs_rebuild: false,
        extent,
        pending_compute: false,
        dispatched: 0,
        phase: Phase::Idle,
    }
}

/// Every transition keeps the invariant.
pub proof fn lemma_next_inv<C, F>(s: SchedulerView, e: Event<C, F>)
    requires
        inv(s),
        event_fits(e),
    ensures
        inv(next(s, e).0),
{
    lemma_last_in_flight(s.slots);
    let u = s.slots.update(s.current as int, SlotState::Observed);
    lemma_last_in_flight(u);
    match s.phase {
        Phase::Draining(goal) => {
            assert(u.len() == s.slots.len());
        },
        Phase::WaitingFence => {
            assert(u.len() == s.slots.len());
            assert(u[s.current as int] == SlotState::Observed);
        },
        Phase::Rebuilding => {
            if let Event::Rebuilt(cbs) = e {
                let fresh = Seq::new(cbs@.len(), |_i: int| SlotState::Empty);
                lemma_last_in_flight(fresh);
            }
        },
        _ => {},
    }
}

/// The frame loop's state, with the device objects it hands out: one command
/// buffer per swap image, one fence slot per swap image, and the fence of the
/// pending compute tick.
pub struct FrameScheduler<C, F> {
    command_buffers: Vec<C>,
    fences: FenceTracker<F>,
    pending_compute: Option<F>,
    previous: usize,
    current: usize,
    needs_rebuild: bool,
    extent: Extent,
    dispatched: u64,
    phase: Phase,
}

impl<C, F> View for FrameScheduler<C, F> {
    type V = SchedulerView;

    closed spec fn view(&self) -> SchedulerView {
        SchedulerView {
            slots: self.fences@,
            image_count: self.command_buffers@.len(),
            previous: self.previous,
            current: self.current,
            needs_rebuild: self.needs_rebuild,
            extent: self.extent,
            pending_compute: self.pending_compute is Some,
            dispatched: self.dispatched,
            phase: self.phase,
        }
    }
}

impl<C, F> FrameScheduler<C, F> {
    /// The invariant, and one command buffer per fence slot.
    pub open spec fn wf(&self) -> bool {
        &&& inv(self@)
        &&& self.command_buffers().len() == self@.image_count
    }

    /// The command buffers, one per swap image.
    pub closed spec fn command_buffers(&self) -> Seq<C> {
        self.command_buffers@
    }

    /// The fence in slot `i`, if any.
    pub closed spec fn fence_handle(&self, i: int) -> Option<F> {
        self.fences.handle(i)
    }

    /// The fence of the pending compute tick, if any.
    pub closed spec fn compute_handle(&self) -> Option<F> {
        self.pending_compute
    }

    spec fn same_objects(&self, other: &Self) -> bool {
        &&& self.command_buffers == other.command_buffers
        &&& self.fences == other.fences
        &&& self.pending_compute == other.pending_compute
    }

    /// A scheduler for a freshly built image set with these command buffers,
    /// waiting for its first event; `NoImages` if there are none.
    pub fn new(command_buffers: Vec<C>, extent: Extent) -> (r: Result<Self, Fault>)
        ensures
            r is Err <==> command_buffers@.len() == 0,
            r matches Err(f) ==> f == Fault::NoImages,
            r matches Ok(s) ==> s@ == initial(command_buffers@.len(), extent) && s.wf()
                && s.command_buffers() == command_buffers@,
    {
        let n = command_buffers.len();
        if n == 0 {
            return Err(Fault::NoImages);
        }
        let fences = FenceTracker::new(n);
        let s = FrameScheduler {
            command_buffers,
            fences,
            pending_compute: None,
            previous: 0,
            current: 0,
            needs_rebuild: false,
            extent,
            dispatched: 0,
            phase: Phase::Idle,
        };
        proof {
            lemma_last_in_flight(s.fences@);
        }
        Ok(s)
    }

    fn fail(&mut self, f: Fault) -> (a: Action)
        ensures
            (final(self)@, a) == fail(old(self)@, f),
            final(self).same_objects(old(self)),
    {
        self.phase = Phase::Failed(f);
        Action::Halt(f)
    }

    fn drain_step(&mut self, goal: DrainGoal) -> (a: Action)
        ensures
            (final(self)@, a) == drain_step(old(self)@, goal),
            final(self).same_objects(old(self)),
    {
        match self.fences.last_in_flight() {
            Some(i) => {
                self.phase = Phase::Draining(goal);
                self.current = i;
                Action::WaitFence(i)
            },
            None => match goal {
                DrainGoal::Rebuild => {
                    self.phase = Phase::Rebuilding;
                    Action::Rebuild(self.extent)
                },
                DrainGoal::Close => if self.pending_compute.is_some() {
                    self.phase = Phase::DrainingCompute;
                    Action::WaitCompute
                } else {
                    self.phase = Phase::Closed;
                    Action::Exit
                },
            },
        }
    }

    fn acquire_step(&mut self) -> (a: Action)
        ensures
            (final(self)@, a) == acquire_step(old(self)@),
            final(self).same_objects(old(self)),
    {
        self.phase = Phase::Acquiring;
        Action::Acquire
    }

    fn submit_step(&mut self) -> (a: Action)
        ensures
            (final(self)@, a) == submit_step(old(self)@),
            final(self).same_objects(old(self)),
    {
        self.phase = Phase::Submitting;
        Action::Submit { image: self.current, previous: self.previous, reads_tick: self.dispatched }
    }

    fn dispatch_step(&mut self) -> (a: Action)
        ensures
            (final(self)@, a) == dispatch_step(old(self)@),
            final(self).same_objects(old(self)),
    {
        if self.dispatched < u64::MAX {
            self.phase = Phase::Dispatching;
            Action::Dispatch(self.dispatched + 1)
        } else {
            self.fail(Fault::TickLimit)
        }
    }

    fn compute_step(&mut self) -> (a: Action)
        ensures
            (final(self)@, a) == compute_step(old(self)@),
            final(self).same_objects(old(self)),
    {
        if self.pending_compute.is_some() {
            self.phase = Phase::WaitingCompute;
            Action::WaitCompute
        } else {
            self.dispatch_step()
        }
    }

    /// Takes one event and answers with the next action, as `next` says.
    /// A successful rebuild brings the new command buffers and replaces the
    /// fence slots with as many empty ones; a submission or a dispatch brings
    /// the fence to keep.
    pub fn handle(&mut self, e: Event<C, F>) -> (a: Action)
        requires
            old(self).wf(),
        ensures
            final(self).wf(),
            (final(self)@, a) == next(old(self)@, e),
            old(self)@.phase == Phase::Rebuilding ==> (e matches Event::Rebuilt(cbs)
                ==> final(self).command_buffers() == if cbs@.len() > 0 {
                cbs@
            } else {
                old(self).command_buffers()
            }),
            !(e is Rebuilt && old(self)@.phase == Phase::Rebuilding)
                ==> final(self).command_buffers() == old(self).command_buffers(),
            old(self)@.phase == Phase::Submitting ==> (e matches Event::Submitted(f)
                ==> final(self).fence_handle(old(self)@.current as int) == Some(f)),
            old(self)@.phase == Phase::Dispatching ==> (e matches Event::Dispatched(f)
                ==> final(self).compute_handle() == Some(f)),
    {
        let ghost e0 = e;
        match &e {
            Event::Rebuilt(cbs) => {
                let _n = cbs.len();
            },
            _ => {},
        }
        assert(event_fits(e0));
        let a = match self.phase {
            Phase::Idle => match e {
                Event::CloseRequested => self.drain_step(DrainGoal::Close),
                Event::CursorMoved => Action::Idle,
                Event::Resized(x) => {
                    self.needs_rebuild = true;
                    self.extent = x;
                    Action::Idle
                },
                Event::RedrawTick => if self.needs_rebuild {
                    self.drain_step(DrainGoal::Rebuild)
                } else {
                    self.acquire_step()
                },
                _ => self.fail(Fault::UnexpectedEvent),
            },
            Phase::Draining(goal) => match e {
                Event::FenceSignalled => {
                    self.fences.mark_observed(self.current);
                    self.drain_step(goal)
                },
                Event::Failed => self.fail(Fault::FenceWaitFailed),
                _ => self.fail(Fault::UnexpectedEvent),
            },
            Phase::DrainingCompute => match e {
                Event::ComputeFinished => {
                    self.pending_compute = None;
                    self.phase = Phase::Closed;
                    Action::Exit
                },
                Event::Failed => self.fail(Fault::ComputeWaitFailed),
                _ => self.fail(Fault::UnexpectedEvent),
            },
            Phase::Rebuilding => match e {
                Event::Rebuilt(cbs) => {
                    let n = cbs.len();
                    if n == 0 {
                        self.fail(Fault::NoImages)
                    } else {
                        self.command_buffers = cbs;
                        self.fences = FenceTracker::new(n);
                        self.previous = 0;
                        self.current = 0;
                        self.needs_rebuild = false;
                        self.acquire_step()
                    }
                },
                Event::ExtentUnsupported => {
                    self.needs_rebuild = true;
                    self.phase = Phase::Idle;
                    Action::Idle
                },
                Event::Failed => self.fail(Fault::RebuildFailed),
                _ => self.fail(Fault::UnexpectedEvent),
            },
            Phase::Acquiring => match e {
                Event::Acquired { image, suboptimal } => {
                    if image >= self.command_buffers.len() {
                        self.fail(Fault::ImageOutOfRange)
                    } else {
                        self.current = image;
                        self.needs_rebuild = self.needs_rebuild || suboptimal;
                        if self.fences.state(image) == SlotState::InFlight {
                            self.phase = Phase::WaitingFence;
                            Action::WaitFence(image)
                        } else {
                            self.submit_step()
                        }
                    }
                },
                Event::OutOfDate => {
                    self.needs_rebuild = true;
                    self.phase = Phase::Idle;
                    Action::Idle
                },
                Event::Failed => self.fail(Fault::AcquireFailed),
                _ => self.fail(Fault::UnexpectedEvent),
            },
            Phase::WaitingFence => match e {
                Event::FenceSignalled => {
                    self.fences.mark_observed(self.current);
                    self.submit_step()
                },
                Event::Failed => self.fail(Fault::FenceWaitFailed),
                _ => self.fail(Fault::UnexpectedEvent),
            },
            Phase::Submitting => match e {
                Event::Submitted(f) => {
                    self.fences.record(self.current, Some(f));
                    self.previous = self.current;
                    self.compute_step()
                },
                Event::OutOfDate => {
                    self.fences.record(self.current, None);
                    self.previous = self.current;
                    self.needs_rebuild = true;
                    self.compute_step()
                },
                Event::Failed => self.fail(Fault::SubmitFailed),
                _ => self.fail(Fault::UnexpectedEvent),
            },
            Phase::WaitingCompute => match e {
                Event::ComputeFinished => {
                    self.pending_compute = None;
                    self.dispatch_step()
                },
                Event::Failed => self.fail(Fault::ComputeWaitFailed),
                _ => self.fail(Fault::UnexpectedEvent),
            },
            Phase::Dispatching => match e {
                Event::Dispatched(f) => {
                    self.pending_compute = Some(f);
                    self.dispatched = self.dispatched + 1;
                    self.phase = Phase::Idle;
                    Action::Idle
                },
                Event::Failed => self.fail(Fault::DispatchFailed),
                _ => self.fail(Fault::UnexpectedEvent),
            },
            Phase::Closed => Action::Exit,
            Phase::Failed(f) => Action::Halt(f),
        };
        proof {
            lemma_next_inv(old(self)@, e0);
        }
        a
    }

    pub fn phase(&self) -> (p: Phase)
        ensures
            p == self@.phase,
    {
        self.phase
    }

    pub fn image_count(&self) -> (n: usize)
        ensures
            n == self@.image_count,
    {
        self.command_buffers.len()
    }

    pub fn needs_rebuild(&self) -> (b: bool)
        ensures
            b == self@.needs_rebuild,
    {
        self.needs_rebuild
    }

    /// The size that the next rebuild is for.
    pub fn extent(&self) -> (x: Extent)
        ensures
            x == self@.extent,
    {
        self.extent
    }

    /// How many compute ticks have been dispatched.
    pub fn dispatched(&self) -> (n: u64)
        ensures
            n == self@.dispatched,
    {
        self.dispatched
    }

    pub fn slot_state(&self, i: usize) -> (st: SlotState)
        requires
            self.wf(),
            i < self@.image_count,
        ensures
            st == self@.slots[i as int],
    {
        self.fences.state(i)
    }

    /// The command buffer of image `i`.
    pub fn command_buffer(&self, i: usize) -> (c: &C)
        requires
            i < self.command_buffers().len(),
        ensures
            *c == self.command_buffers()[i as int],
    {
        &self.command_buffers[i]
    }

    /// The fence that `Action::WaitFence(i)` asks to wait for.
    pub fn fence_to_wait(&self, i: usize) -> (r: Option<&F>)
        requires
            self.wf(),
            i < self@.image_count,
        ensures
            r is Some <==> self@.slots[i as int] == SlotState::InFlight,
            r matches Some(f) ==> self.fence_handle(i as int) == Some(*f),
    {
        self.fences.wait_if_pending(i)
    }

    /// What the next render submission follows: `None` for work already
    /// complete, else the fence of the image submitted last.
    pub fn previous_future(&self) -> (r: Option<&F>)
        requires
            self.wf(),
        ensures
            r is None <==> self@.slots[self@.previous as int] == SlotState::Empty,
            r matches Some(f) ==> self.fence_handle(self@.previous as int) == Some(*f),
    {
        self.fences.previous_future(self.previous)
    }

    /// The fence of the compute tick dispatched last and not yet waited for.
    pub fn pending_compute(&self) -> (r: Option<&F>)
        ensures
            r is Some <==> self@.pending_compute,
            r matches Some(f) ==> self.compute_handle() == Some(*f),
    {
        match &self.pending_compute {
            Some(f) => Some(f),
            None => None,
        }
    }
}

/// The state after the events `evs`, one after the other.
pub open spec fn run<C, F>(s: SchedulerView, evs: Seq<Event<C, F>>) -> SchedulerView
    decreases evs.len(),
{
    if evs.len() == 0 {
        s
    } else {
        next(run(s, evs.drop_last()), evs.last()).0
    }
}

/// The action that the `k`-th of the events `evs` is answered with.
pub open spec fn action_at<C, F>(s: SchedulerView, evs: Seq<Event<C, F>>, k: int) -> Action {
    next(run(s, evs.take(k)), evs[k]).1
}

pub open spec fn all_fit<C, F>(evs: Seq<Event<C, F>>) -> bool {
    forall|i: int| 0 <= i < evs.len() ==> event_fits(#[trigger] evs[i])
}

proof fn lemma_run_step<C, F>(s: SchedulerView, evs: Seq<Event<C, F>>, k: int)
    requires
        0 <= k < evs.len(),
    ensures
        run(s, evs.take(k + 1)) == next(run(s, evs.take(k)), evs[k]).0,
{
    assert(evs.take(k + 1).drop_last() =~= evs.take(k));
    assert(evs.take(k + 1).last() == evs[k]);
}

/// Every state reached from a state of the invariant is of the invariant.
pub proof fn lemma_run_inv<C, F>(s: SchedulerView, evs: Seq<Event<C, F>>)
    requires
        inv(s),
        all_fit(evs),
    ensures
        inv(run(s, evs)),
    decreases evs.len(),
{
    if evs.len() > 0 {
        let front = evs.drop_last();
        assert forall|i: int| 0 <= i < front.len() implies event_fits(#[trigger] front[i]) by {
            assert(front[i] == evs[i]);
        }
        lemma_run_inv(s, front);
        lemma_next_inv(run(s, front), evs.last());
    }
}

proof fn lemma_prefix_inv<C, F>(s: SchedulerView, evs: Seq<Event<C, F>>, k: int)
    requires
        inv(s),
        all_fit(evs),
        0 <= k <= evs.len(),
    ensures
        inv(run(s, evs.take(k))),
{
    let p = evs.take(k);
    assert forall|i: int| 0 <= i < p.len() implies event_fits(#[trigger] p[i]) by {
        assert(p[i] == evs[i]);
    }
    lemma_run_inv(s, p);
}

/// No double submission: whenever the scheduler asks for a submission to
/// image `i`, slot `i` holds no fence that the host has not seen signalled;
/// and whenever the outcome of a submission is stored in a slot, the fence
/// it replaces (if any) was seen signalled.
pub proof fn lemma_no_double_submission<C, F>(s: SchedulerView, evs: Seq<Event<C, F>>, k: int)
    requires
        inv(s),
        all_fit(evs),
        0 <= k < evs.len(),
    ensures
        action_at(s, evs, k) matches Action::Submit { image, .. } ==> image < run(
            s,
            evs.take(k + 1),
        ).slots.len() && run(s, evs.take(k + 1)).slots[image as int] != SlotState::InFlight,
        ({
            let t = run(s, evs.take(k));
            t.phase == Phase::Submitting && (evs[k] is Submitted || evs[k] is OutOfDate)
                ==> t.slots[t.current as int] != SlotState::InFlight
        }),
{
    lemma_prefix_inv(s, evs, k);
    let t = run(s, evs.take(k));
    lemma_next_inv(t, evs[k]);
    lemma_run_step(s, evs, k);
}

/// Every transition that does not end a pass keeps the tick counter, and a
/// dispatch is always for the tick after the last one dispatched.
proof fn lemma_tick_step<C, F>(s: SchedulerView, e: Event<C, F>)
    ensures
        next(s, e).1 != Action::Idle ==> next(s, e).0.dispatched == s.dispatched,
        next(s, e).1 matches Action::Dispatch(d) ==> d == s.dispatched + 1,
{
}

proof fn lemma_pass_keeps_tick<C, F>(s: SchedulerView, evs: Seq<Event<C, F>>, k: int, j: int)
    requires
        0 <= k < j <= evs.len(),
        forall|m: int| k <= m < j ==> action_at(s, evs, m) != Action::Idle,
    ensures
        run(s, evs.take(j)).dispatched == run(s, evs.take(k)).dispatched,
    decreases j - k,
{
    lemma_run_step(s, evs, j - 1);
    lemma_tick_step(run(s, evs.take(j - 1)), evs[j - 1]);
    assert(action_at(s, evs, j - 1) != Action::Idle);
    if k < j - 1 {
        lemma_pass_keeps_tick(s, evs, k, j - 1);
    }
}

/// Lag exactness: the render work of a pass reads the buffer as the last
/// dispatched tick `t` left it, that tick is still unconfirmed on the host
/// when the render work is asked for (unless no tick was dispatched yet),
/// and the dispatch that the same pass then asks for is tick `t + 1`, never
/// a later or an earlier one.
pub proof fn lemma_lag_exactness<C, F>(s: SchedulerView, evs: Seq<Event<C, F>>, k: int, j: int)
    requires
        inv(s),
        all_fit(evs),
        0 <= k < j < evs.len(),
        forall|m: int| k <= m < j ==> action_at(s, evs, m) != Action::Idle,
    ensures
        action_at(s, evs, k) matches Action::Submit { reads_tick, .. } ==> {
            &&& reads_tick == run(s, evs.take(k + 1)).dispatched
            &&& run(s, evs.take(k + 1)).pending_compute == (reads_tick > 0)
            &&& (action_at(s, evs, j) matches Action::Dispatch(d) ==> d == reads_tick + 1)
        },
{
    lemma_prefix_inv(s, evs, k);
    let t = run(s, evs.take(k));
    lemma_next_inv(t, evs[k]);
    lemma_run_step(s, evs, k);
    lemma_tick_step(t, evs[k]);
    if k + 1 < j {
        lemma_pass_keeps_tick(s, evs, k + 1, j);
    }
    lemma_tick_step(run(s, evs.take(j)), evs[j]);
}

/// Resize idempotence: any number of resize notifications between two
/// redraw ticks leave the same state as one notification of the final
/// extent, so the next tick rebuilds once, for that extent.
pub proof fn lemma_resize_idempotent<C, F>(s: SchedulerView, evs: Seq<Event<C, F>>, x: Extent)
    requires
        s.phase == Phase::Idle,
        evs.len() >= 1,
        forall|i: int| 0 <= i < evs.len() ==> #[trigger] evs[i] is Resized,
        evs.last() == Event::<C, F>::Resized(x),
    ensures
        run(s, evs) == next(s, Event::<C, F>::Resized(x)).0,
        run(s, evs).needs_rebuild && run(s, evs).extent == x && run(s, evs).phase == Phase::Idle,
    decreases evs.len(),
{
    let front = evs.drop_last();
    assert(evs[evs.len() - 1] is Resized);
    if evs.len() > 1 {
        assert(front.last() == evs[evs.len() - 2]);
        assert(evs[evs.len() - 2] is Resized);
        let y = front.last()->Resized_0;
        assert forall|i: int| 0 <= i < front.len() implies #[trigger] front[i] is Resized by {
            assert(front[i] == evs[i]);
        }
        lemma_resize_idempotent(s, front, y);
    } else {
        assert(run(s, front) == s);
    }
}

/// Fence slot cardinality: a rebuild leaves exactly one empty fence slot per
/// new command buffer, and as many images.
pub proof fn lemma_rebuild_cardinality<C, F>(s: SchedulerView, cbs: Vec<C>)
    requires
        inv(s),
        s.phase == Phase::Rebuilding,
        0 < cbs@.len() <= usize::MAX,
    ensures
        ({
            let u = next(s, Event::<C, F>::Rebuilt(cbs)).0;
            &&& u.slots.len() == cbs@.len()
            &&& u.image_count == cbs@.len()
            &&& forall|i: int| 0 <= i < u.slots.len() ==> u.slots[i] == SlotState::Empty
        }),
{
}

/// The loop exits only when no fence is in flight and no compute tick is
/// pending, so no device object is released under running work.
pub proof fn lemma_exit_drained<C, F>(s: SchedulerView, e: Event<C, F>)
    requires
        inv(s),
        event_fits(e),
        next(s, e).1 == Action::Exit,
    ensures
        none_in_flight(next(s, e).0.slots),
        !next(s, e).0.pending_compute,
{
    lemma_next_inv(s, e);
}

} // verus!
