use frame_ring::ring::slot_for;
use frame_ring::sched::{
    AcquireOutcome, BeginAction, FrameScheduler, Phase, PresentOutcome,
};
use frame_ring::upload::{MemoryType, UploadBuffer};
use frame_ring::{BackendError, Frame};

fn ready_frame(desc: u64) -> Frame {
    let types = vec![MemoryType { cpu_visible: true }];
    Frame {
        desc_set: Some(desc),
        ubuffer: Some(UploadBuffer::new(64, 0b1, &types).unwrap()),
        vbuffer: Some(UploadBuffer::new(256, 0b1, &types).unwrap()),
    }
}

fn make_scheduler(frames_in_flight: usize, image_count: usize) -> FrameScheduler {
    let mut slots = Vec::new();
    let mut pools = Vec::new();
    for i in 0..frames_in_flight {
        slots.push(ready_frame(10 + i as u64));
        pools.push(100 + i as u64);
    }
    FrameScheduler::new(slots, pools, image_count, 1024, 768, 1000)
}

/// Runs one full iteration without resize; the device acquires image
/// `image` and presents successfully. Returns the fence the driver waited
/// on.
fn run_iteration(s: &mut FrameScheduler, image: usize) -> u64 {
    let action = s.begin_frame();
    match action {
        BeginAction::Acquire { semaphore } => assert_eq!(semaphore, {
            // begin_frame hands out the spare semaphore as it was before the call
            s.sync.free_acquire
        }),
        BeginAction::Rebuild { .. } => panic!("unexpected rebuild"),
    }
    s.finish_acquire(AcquireOutcome::Image { index: image }).unwrap();
    let fence = s.fence_to_wait();
    s.on_fence_signaled();
    let payload: Vec<u8> = (0u8..64u8).collect();
    s.write_uniform(0, &payload);
    let info = s.finish_recording();
    assert_eq!(info.signal_fence, fence);
    assert_eq!(info.image_index, image);
    s.on_present(PresentOutcome::Presented).unwrap();
    fence
}

#[test]
fn slot_for_cycles_through_ring() {
    for k in 0u64..12u64 {
        assert_eq!(slot_for(k, 3), (k % 3) as usize);
    }
    assert_eq!(slot_for(41, 1), 0);
}

#[test]
fn new_scheduler_initial_state() {
    let s = make_scheduler(3, 2);
    assert_eq!(s.phase, Phase::Top);
    assert_eq!(s.frame_counter, 0);
    assert_eq!(s.frames_in_flight, 3);
    assert_eq!(s.chain.images.len(), 2);
    assert_eq!(s.chain.views.len(), 2);
    assert_eq!(s.chain.targets.len(), 2);
    assert_eq!(s.viewport_width, 1024);
    assert_eq!(s.viewport_height, 768);
    assert_eq!(s.sync.image_acquire.len(), 2);
    assert_eq!(s.sync.submission_complete.len(), 3);
    assert_eq!(s.sync.fences.len(), 3);
}

#[test]
fn ten_iterations_wait_three_fences_cycling() {
    // ten acquire/submit/present iterations with no resize: exactly three
    // distinct fences are ever waited on, cycling through the ring in
    // order, and the spare acquire semaphore changes identity every
    // iteration
    let mut s = make_scheduler(3, 2);
    let ring_fences = s.sync.fences.clone();
    let mut waited = Vec::new();
    let mut spares = vec![s.sync.free_acquire];
    for k in 0..10usize {
        waited.push(run_iteration(&mut s, k % 2));
        let spare = s.sync.free_acquire;
        assert_ne!(spare, *spares.last().unwrap());
        spares.push(spare);
    }
    assert_eq!(waited.len(), 10);
    for k in 0..10usize {
        assert_eq!(waited[k], ring_fences[k % 3]);
    }
    let mut distinct = waited.clone();
    distinct.sort();
    distinct.dedup();
    assert_eq!(distinct.len(), 3);
}

#[test]
fn acquire_pool_stays_partitioned() {
    // after every rotation the spare differs from each per-image
    // semaphore and no two images share one
    let mut s = make_scheduler(2, 3);
    for k in 0..9usize {
        run_iteration(&mut s, k % 3);
        let spare = s.sync.free_acquire;
        let pool = &s.sync.image_acquire;
        for i in 0..pool.len() {
            assert_ne!(pool[i], spare);
            for j in (i + 1)..pool.len() {
                assert_ne!(pool[i], pool[j]);
            }
        }
    }
}

#[test]
fn slot_reuse_waits_for_submission_f_frames_back() {
    // with two slots, iteration k reuses slot k % 2, whose outstanding
    // submission is exactly the one from iteration k - 2
    let mut s = make_scheduler(2, 2);
    for k in 0..6u64 {
        let slot = (k % 2) as usize;
        if k >= 2 {
            assert_eq!(s.in_flight[slot], Some(k - 2));
        } else {
            assert_eq!(s.in_flight[slot], None);
        }
        run_iteration(&mut s, 0);
        // the slot's submission of this iteration is now outstanding
        assert_eq!(s.in_flight[slot], Some(k));
    }
}

#[test]
fn uniform_write_read_round_trip_in_record_phase() {
    let mut s = make_scheduler(3, 2);
    s.begin_frame();
    s.finish_acquire(AcquireOutcome::Image { index: 0 }).unwrap();
    s.fence_to_wait();
    s.on_fence_signaled();
    let payload: Vec<u8> = (100u8..164u8).collect();
    s.write_uniform(0, &payload);
    let back = s.read_uniform(0, 64);
    assert_eq!(back, payload);
}

#[test]
fn vertex_write_lands_in_active_slot() {
    let mut s = make_scheduler(2, 2);
    s.begin_frame();
    s.finish_acquire(AcquireOutcome::Image { index: 1 }).unwrap();
    s.fence_to_wait();
    s.on_fence_signaled();
    let payload = vec![5u8; 12];
    s.write_vertices(8, &payload);
    // iteration 0 uses slot 0
    let vb = s.slots[0].vbuffer.as_ref().unwrap();
    assert_eq!(&vb.data[8..20], &payload[..]);
    assert!(vb.data[..8].iter().all(|&b| b == 0));
    assert!(vb.data[20..].iter().all(|&b| b == 0));
}

#[test]
fn resize_is_latched_and_applied_next_iteration() {
    let mut s = make_scheduler(2, 2);
    // a resize arriving mid-frame does not abort the iteration
    let action = s.begin_frame();
    assert!(matches!(action, BeginAction::Acquire { .. }));
    s.request_resize(640, 480);
    s.finish_acquire(AcquireOutcome::Image { index: 0 }).unwrap();
    s.fence_to_wait();
    s.on_fence_signaled();
    s.finish_recording();
    s.on_present(PresentOutcome::Presented).unwrap();
    // at the top of the next iteration the latched resize forces a rebuild
    match s.begin_frame() {
        BeginAction::Rebuild { width, height } => {
            assert_eq!(width, 640);
            assert_eq!(height, 480);
        },
        BeginAction::Acquire { .. } => panic!("expected a rebuild"),
    }
}

#[test]
fn rebuild_after_resize_restores_chain_and_viewport() {
    let mut s = make_scheduler(2, 2);
    run_iteration(&mut s, 0);
    let mut old_handles = s.chain.images.clone();
    old_handles.extend_from_slice(&s.chain.views);
    old_handles.extend_from_slice(&s.chain.targets);
    old_handles.extend_from_slice(&s.sync.image_acquire);
    old_handles.push(s.sync.free_acquire);
    let ring_fences = s.sync.fences.clone();
    s.request_resize(800, 600);
    match s.begin_frame() {
        BeginAction::Rebuild { width, height } => {
            assert_eq!((width, height), (800, 600));
        },
        BeginAction::Acquire { .. } => panic!("expected a rebuild"),
    }
    // the backend settles on four present images this time
    s.finish_rebuild(4);
    assert_eq!(s.chain.images.len(), 4);
    assert_eq!(s.chain.views.len(), 4);
    assert_eq!(s.chain.targets.len(), 4);
    assert_eq!(s.chain.width, 800);
    assert_eq!(s.chain.height, 600);
    assert_eq!(s.viewport_width, 800);
    assert_eq!(s.viewport_height, 600);
    // the acquire pool follows the new image count; the frame pool is kept
    assert_eq!(s.sync.image_acquire.len(), 4);
    assert_eq!(s.sync.fences, ring_fences);
    // no pre-rebuild chain or acquire handle survives
    let mut new_handles = s.chain.images.clone();
    new_handles.extend_from_slice(&s.chain.views);
    new_handles.extend_from_slice(&s.chain.targets);
    new_handles.extend_from_slice(&s.sync.image_acquire);
    new_handles.push(s.sync.free_acquire);
    for h in &old_handles {
        assert!(!new_handles.contains(h));
    }
    // the ring keeps running against the rebuilt chain
    run_iteration(&mut s, 3);
}

#[test]
fn rebuild_transition_is_idempotent() {
    let mut s = make_scheduler(2, 2);
    s.request_resize(512, 512);
    match s.begin_frame() {
        BeginAction::Rebuild { .. } => {},
        BeginAction::Acquire { .. } => panic!("expected a rebuild"),
    }
    s.finish_rebuild(2);
    let spare = s.sync.free_acquire;
    let images = s.chain.images.clone();
    let width = s.chain.width;
    // the second pass finds the chain already valid: a no-op, and the
    // iteration proceeds straight to acquisition
    match s.begin_frame() {
        BeginAction::Acquire { semaphore } => assert_eq!(semaphore, spare),
        BeginAction::Rebuild { .. } => panic!("second transition must not rebuild"),
    }
    assert_eq!(s.sync.free_acquire, spare);
    assert_eq!(s.chain.images, images);
    assert_eq!(s.chain.width, width);
    assert_eq!(s.frame_counter, 0);
}

#[test]
fn stale_acquire_abandons_iteration_and_rebuilds() {
    let mut s = make_scheduler(2, 2);
    let extent = (s.chain.width, s.chain.height);
    s.begin_frame();
    let r = s.finish_acquire(AcquireOutcome::OutOfDate);
    assert!(r.is_ok());
    assert_eq!(s.phase, Phase::Top);
    assert_eq!(s.frame_counter, 0);
    // the next iteration rebuilds at the current extent
    match s.begin_frame() {
        BeginAction::Rebuild { width, height } => assert_eq!((width, height), extent),
        BeginAction::Acquire { .. } => panic!("expected a rebuild"),
    }
}

#[test]
fn present_out_of_date_marks_chain_stale() {
    let mut s = make_scheduler(2, 2);
    s.begin_frame();
    s.finish_acquire(AcquireOutcome::Image { index: 0 }).unwrap();
    s.fence_to_wait();
    s.on_fence_signaled();
    s.finish_recording();
    let r = s.on_present(PresentOutcome::OutOfDate);
    assert!(r.is_ok());
    assert_eq!(s.frame_counter, 1);
    assert!(matches!(s.begin_frame(), BeginAction::Rebuild { .. }));
}

#[test]
fn second_failure_after_rebuild_is_chain_lost() {
    let mut s = make_scheduler(2, 2);
    s.begin_frame();
    s.finish_acquire(AcquireOutcome::OutOfDate).unwrap();
    s.begin_frame();
    s.finish_rebuild(2);
    s.begin_frame();
    // the chain is out of date again right after the rebuild: fatal
    let r = s.finish_acquire(AcquireOutcome::OutOfDate);
    assert_eq!(r, Err(BackendError::ChainLost));
    assert_eq!(s.phase, Phase::Failed);
}

#[test]
fn teardown_destroys_in_reverse_dependency_order() {
    let s = make_scheduler(2, 2);
    let plan = s.teardown_plan();
    // descriptor objects first, then command contexts and the
    // synchronization pools, then targets and views before the images
    let mut expected: Vec<u64> = vec![10, 11];
    expected.extend_from_slice(&s.command_pools);
    expected.push(s.sync.free_acquire);
    expected.extend_from_slice(&s.sync.image_acquire);
    expected.extend_from_slice(&s.sync.submission_complete);
    expected.extend_from_slice(&s.sync.fences);
    expected.extend_from_slice(&s.chain.targets);
    expected.extend_from_slice(&s.chain.views);
    expected.extend_from_slice(&s.chain.images);
    assert_eq!(plan, expected);
}

#[test]
fn single_slot_ring_reuses_one_fence() {
    let mut s = make_scheduler(1, 2);
    let fence = s.sync.fences[0];
    for k in 0..4u64 {
        if k >= 1 {
            assert_eq!(s.in_flight[0], Some(k - 1));
        }
        assert_eq!(run_iteration(&mut s, 0), fence);
    }
}
