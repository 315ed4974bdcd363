use gpu_sand::scheduler::{Action, Event, Extent, Fault, FrameScheduler, Phase};
use gpu_sand::particle::Material;
use gpu_sand::staging::{particle_capacity, plan_upload};
use gpu_sand::tracker::SlotState;

type Sched = FrameScheduler<u32, u64>;

fn extent(width: u32, height: u32) -> Extent {
    Extent { width, height }
}

fn sched(images: u32) -> Sched {
    FrameScheduler::new((0..images).collect(), extent(800, 600)).unwrap()
}

/// Plays a device that always succeeds: acquires `image`, and rebuilds with
/// `rebuild_images` images. Returns every action of the pass.
fn pass(s: &mut Sched, image: usize, rebuild_images: u32, next_fence: &mut u64) -> Vec<Action> {
    let mut actions = Vec::new();
    let mut a = s.handle(Event::RedrawTick);
    loop {
        actions.push(a);
        let e = match a {
            Action::Idle | Action::Exit | Action::Halt(_) => break,
            Action::Rebuild(_) => Event::Rebuilt((0..rebuild_images).collect()),
            Action::Acquire => Event::Acquired { image, suboptimal: false },
            Action::WaitFence(_) => Event::FenceSignalled,
            Action::Submit { image: i, .. } => {
                assert_ne!(s.slot_state(i), SlotState::InFlight);
                *next_fence += 1;
                Event::Submitted(*next_fence)
            }
            Action::WaitCompute => Event::ComputeFinished,
            Action::Dispatch(_) => {
                *next_fence += 1;
                Event::Dispatched(*next_fence)
            }
        };
        a = s.handle(e);
    }
    actions
}

fn count(actions: &[Action], f: impl Fn(&Action) -> bool) -> usize {
    actions.iter().filter(|a| f(a)).count()
}

#[test]
fn new_rejects_empty_image_set() {
    assert_eq!(FrameScheduler::<u32, u64>::new(Vec::new(), extent(1, 1)).err(), Some(Fault::NoImages));
    let s = sched(3);
    assert_eq!(s.image_count(), 3);
    assert_eq!(s.phase(), Phase::Idle);
    assert!(!s.needs_rebuild());
    assert_eq!(s.dispatched(), 0);
    assert!(s.pending_compute().is_none());
    assert!(s.previous_future().is_none());
}

#[test]
fn first_pass_sequence() {
    let mut s = sched(3);
    let mut fence = 0;
    let actions = pass(&mut s, 1, 3, &mut fence);
    assert_eq!(
        actions,
        vec![
            Action::Acquire,
            Action::Submit { image: 1, previous: 0, reads_tick: 0 },
            Action::Dispatch(1),
            Action::Idle,
        ]
    );
    assert_eq!(s.slot_state(1), SlotState::InFlight);
    assert_eq!(s.fence_to_wait(1), Some(&1));
    assert_eq!(s.previous_future(), Some(&1));
    assert_eq!(s.pending_compute(), Some(&2));
    assert_eq!(s.dispatched(), 1);
}

#[test]
fn hundred_ticks_without_resize() {
    let count_particles = particle_capacity(16);
    let world: Vec<Material> = (0..count_particles as u32)
        .map(|id| Material { id, ..Default::default() })
        .collect();
    let plan = plan_upload(&world);
    assert_eq!(plan.destination_len, 1024);
    let mut s = sched(3);
    let mut fence = 0;
    for k in 0..100u64 {
        let image = (k % 3) as usize;
        let actions = pass(&mut s, image, 3, &mut fence);
        assert!(count(&actions, |a| matches!(a, Action::WaitFence(_))) <= 1);
        let waits = count(&actions, |a| matches!(a, Action::WaitCompute));
        assert_eq!(waits, if k == 0 { 0 } else { 1 });
        assert_eq!(count(&actions, |a| matches!(a, Action::Dispatch(_))), 1);
        assert_eq!(count(&actions, |a| matches!(a, Action::Rebuild(_))), 0);
        assert_eq!(*actions.last().unwrap(), Action::Idle);
        // the tick dispatched in this pass is pending until the next pass
        assert!(s.pending_compute().is_some());
        assert_eq!(s.dispatched(), k + 1);
    }
    // from the fourth pass on every image was used before: one fence wait each
    let actions = pass(&mut s, 2, 3, &mut fence);
    assert_eq!(count(&actions, |a| matches!(a, Action::WaitFence(2))), 1);
}

#[test]
fn render_reads_previous_tick() {
    let mut s = sched(2);
    let mut fence = 0;
    for k in 0..10u64 {
        let actions = pass(&mut s, (k % 2) as usize, 2, &mut fence);
        let reads = actions.iter().find_map(|a| match a {
            Action::Submit { reads_tick, .. } => Some(*reads_tick),
            _ => None,
        });
        let dispatched = actions.iter().find_map(|a| match a {
            Action::Dispatch(t) => Some(*t),
            _ => None,
        });
        assert_eq!(reads, Some(k));
        assert_eq!(dispatched, Some(k + 1));
    }
}

#[test]
fn submit_waits_for_slot_fence() {
    let mut s = sched(2);
    let mut fence = 0;
    pass(&mut s, 0, 2, &mut fence);
    pass(&mut s, 1, 2, &mut fence);
    // image 0 again: its fence is waited for before the submission
    assert_eq!(s.handle(Event::RedrawTick), Action::Acquire);
    assert_eq!(s.handle(Event::Acquired { image: 0, suboptimal: false }), Action::WaitFence(0));
    assert_eq!(s.phase(), Phase::WaitingFence);
    assert_eq!(
        s.handle(Event::FenceSignalled),
        Action::Submit { image: 0, previous: 1, reads_tick: 2 }
    );
    assert_eq!(s.slot_state(0), SlotState::Observed);
    assert_eq!(s.handle(Event::Submitted(100)), Action::WaitCompute);
    assert_eq!(s.slot_state(0), SlotState::InFlight);
    assert_eq!(s.fence_to_wait(0), Some(&100));
    assert_eq!(s.handle(Event::ComputeFinished), Action::Dispatch(3));
    assert_eq!(s.handle(Event::Dispatched(101)), Action::Idle);
}

#[test]
fn resizes_to_two_extents() {
    let mut s = sched(3);
    let mut fence = 0;
    pass(&mut s, 0, 3, &mut fence);
    pass(&mut s, 1, 3, &mut fence);
    assert_eq!(s.handle(Event::Resized(extent(1024, 768))), Action::Idle);
    let actions = pass(&mut s, 0, 4, &mut fence);
    // both fences in flight are drained, highest slot first, then one rebuild
    assert_eq!(
        &actions[..3],
        &[Action::WaitFence(1), Action::WaitFence(0), Action::Rebuild(extent(1024, 768))]
    );
    assert_eq!(s.image_count(), 4);
    assert_eq!(*s.command_buffer(3), 3);
    assert!(!s.needs_rebuild());
    assert_eq!(s.handle(Event::Resized(extent(640, 480))), Action::Idle);
    let actions = pass(&mut s, 1, 2, &mut fence);
    assert_eq!(actions[1], Action::Rebuild(extent(640, 480)));
    assert_eq!(s.image_count(), 2);
    assert_eq!(s.slot_state(1), SlotState::InFlight);
    assert_eq!(s.slot_state(0), SlotState::Empty);
}

#[test]
fn repeated_resizes_rebuild_once() {
    let mut s = sched(3);
    let mut fence = 0;
    pass(&mut s, 0, 3, &mut fence);
    for w in [100, 200, 300, 400, 500] {
        assert_eq!(s.handle(Event::Resized(extent(w, 50))), Action::Idle);
    }
    assert_eq!(s.extent(), extent(500, 50));
    let actions = pass(&mut s, 0, 3, &mut fence);
    assert_eq!(count(&actions, |a| matches!(a, Action::Rebuild(_))), 1);
    assert!(actions.contains(&Action::Rebuild(extent(500, 50))));
    let actions = pass(&mut s, 1, 3, &mut fence);
    assert_eq!(count(&actions, |a| matches!(a, Action::Rebuild(_))), 0);
}

#[test]
fn stale_acquire_aborts_pass() {
    let mut s = sched(2);
    assert_eq!(s.handle(Event::RedrawTick), Action::Acquire);
    assert_eq!(s.handle(Event::OutOfDate), Action::Idle);
    assert!(s.needs_rebuild());
    assert_eq!(s.dispatched(), 0);
    assert_eq!(s.handle(Event::RedrawTick), Action::Rebuild(extent(800, 600)));
}

#[test]
fn suboptimal_image_is_still_used() {
    let mut s = sched(2);
    assert_eq!(s.handle(Event::RedrawTick), Action::Acquire);
    assert_eq!(
        s.handle(Event::Acquired { image: 1, suboptimal: true }),
        Action::Submit { image: 1, previous: 0, reads_tick: 0 }
    );
    assert!(s.needs_rebuild());
}

#[test]
fn stale_present_leaves_slot_empty() {
    let mut s = sched(2);
    s.handle(Event::RedrawTick);
    s.handle(Event::Acquired { image: 1, suboptimal: false });
    assert_eq!(s.handle(Event::OutOfDate), Action::Dispatch(1));
    assert_eq!(s.slot_state(1), SlotState::Empty);
    assert!(s.needs_rebuild());
    assert!(s.previous_future().is_none());
}

#[test]
fn unsupported_extent_retries_next_tick() {
    let mut s = sched(2);
    s.handle(Event::Resized(extent(0, 0)));
    assert_eq!(s.handle(Event::RedrawTick), Action::Rebuild(extent(0, 0)));
    assert_eq!(s.handle(Event::ExtentUnsupported), Action::Idle);
    assert!(s.needs_rebuild());
    assert_eq!(s.image_count(), 2);
    assert_eq!(s.handle(Event::RedrawTick), Action::Rebuild(extent(0, 0)));
}

#[test]
fn close_drains_everything() {
    let mut s = sched(3);
    let mut fence = 0;
    pass(&mut s, 0, 3, &mut fence);
    pass(&mut s, 2, 3, &mut fence);
    assert_eq!(s.handle(Event::CloseRequested), Action::WaitFence(2));
    assert_eq!(s.handle(Event::FenceSignalled), Action::WaitFence(0));
    assert_eq!(s.handle(Event::FenceSignalled), Action::WaitCompute);
    assert_eq!(s.handle(Event::ComputeFinished), Action::Exit);
    assert_eq!(s.phase(), Phase::Closed);
    assert!(s.pending_compute().is_none());
    assert_eq!(s.handle(Event::RedrawTick), Action::Exit);
}

#[test]
fn close_before_any_work_exits() {
    let mut s = sched(2);
    assert_eq!(s.handle(Event::CursorMoved), Action::Idle);
    assert_eq!(s.handle(Event::CloseRequested), Action::Exit);
}

#[test]
fn faults_by_phase() {
    let mut s = sched(2);
    s.handle(Event::RedrawTick);
    assert_eq!(s.handle(Event::Acquired { image: 2, suboptimal: false }), Action::Halt(Fault::ImageOutOfRange));
    assert_eq!(s.handle(Event::RedrawTick), Action::Halt(Fault::ImageOutOfRange));

    let mut s = sched(2);
    s.handle(Event::RedrawTick);
    assert_eq!(s.handle(Event::Failed), Action::Halt(Fault::AcquireFailed));

    let mut s = sched(2);
    s.handle(Event::RedrawTick);
    s.handle(Event::Acquired { image: 0, suboptimal: false });
    assert_eq!(s.handle(Event::Failed), Action::Halt(Fault::SubmitFailed));
    assert_eq!(s.phase(), Phase::Failed(Fault::SubmitFailed));

    let mut s = sched(2);
    s.handle(Event::RedrawTick);
    s.handle(Event::Acquired { image: 0, suboptimal: false });
    s.handle(Event::Submitted(1));
    assert_eq!(s.handle(Event::Failed), Action::Halt(Fault::DispatchFailed));

    let mut s = sched(2);
    let mut fence = 0;
    pass(&mut s, 0, 2, &mut fence);
    s.handle(Event::RedrawTick);
    s.handle(Event::Acquired { image: 0, suboptimal: false });
    assert_eq!(s.handle(Event::Failed), Action::Halt(Fault::FenceWaitFailed));

    let mut s = sched(2);
    pass(&mut s, 0, 2, &mut fence);
    s.handle(Event::RedrawTick);
    s.handle(Event::Acquired { image: 1, suboptimal: false });
    s.handle(Event::Submitted(9));
    assert_eq!(s.handle(Event::Failed), Action::Halt(Fault::ComputeWaitFailed));

    let mut s = sched(2);
    s.handle(Event::Resized(extent(5, 5)));
    s.handle(Event::RedrawTick);
    assert_eq!(s.handle(Event::Failed), Action::Halt(Fault::RebuildFailed));

    let mut s = sched(2);
    s.handle(Event::Resized(extent(5, 5)));
    s.handle(Event::RedrawTick);
    assert_eq!(s.handle(Event::Rebuilt(Vec::new())), Action::Halt(Fault::NoImages));

    let mut s = sched(2);
    assert_eq!(s.handle(Event::FenceSignalled), Action::Halt(Fault::UnexpectedEvent));
}
