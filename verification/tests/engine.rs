use shimeji_engine::bucket::{BucketError, BucketThreadMessage, WindowHandle, WindowSize};
use shimeji_engine::data::{AnimationData, Frame, ShimejiData};
use shimeji_engine::manager::{BucketManager, ManagerError};
use shimeji_engine::rgba::Rgba;
use shimeji_engine::shimeji::ShimejiWindow;
use shimeji_engine::sorting::sort_pairs;
use shimeji_engine::worker::BucketWorker;
use std::sync::Arc;

/// One 1x1 sprite whose "idle" clip has `frame_count` frames; frame k (from
/// 0) is the solid colour (10*(k+1), 2, 3, 255).
fn sample_data(frame_count: usize, fps: u32) -> ShimejiData {
    let mut frames = Vec::new();
    for k in 0..frame_count {
        frames.push(Frame {
            pixels_row_major: vec![Rgba::new((10 * (k + 1)) as u8, 2, 3, 255)],
        });
    }
    ShimejiData {
        name: String::from("sample"),
        height: 1,
        width: 1,
        animations: vec![(String::from("idle"), AnimationData { fps, frames })],
    }
}

fn window(id: u64) -> WindowHandle {
    WindowHandle { id, width: 10, height: 10 }
}

// A 24 fps clip renders at most every 1_000_000 / 24 microseconds.
const INTERVAL_24FPS: u64 = 41_666;

#[test]
fn buckets_are_created_successfully() {
    let manager = BucketManager::new(1);

    assert!(manager.buckets().first().is_some());
}

#[test]
fn manager_new_creates_exactly_pool_size_running_buckets() {
    let manager = BucketManager::new(3);
    let buckets = manager.buckets();
    assert_eq!(buckets.len(), 3);
    for (i, bucket) in buckets.iter().enumerate() {
        assert!(bucket.is_running());
        assert_eq!(bucket.id, i);
        assert_eq!(bucket.contained_shimejis(), 0);
    }
}

#[test]
fn load_order_prefers_least_loaded_with_ties_by_index() {
    // Buckets with sprite counts [2, 0, 1]: the assignment order by bucket
    // index must be [1, 2, 0], so the second bucket receives the first new
    // sprite.
    let order = sort_pairs(vec![(2, 0), (0, 1), (1, 2)]);
    assert_eq!(order, vec![(0, 1), (1, 2), (2, 0)]);
}

#[test]
fn drain_assigns_round_robin_and_routes_windows() {
    let mut manager = BucketManager::new(3);
    let data = Arc::new(sample_data(2, 24));
    assert!(data.is_valid());
    for _ in 0..3 {
        manager.add_shimeji(data.clone());
    }
    assert_eq!(manager.pending_count(), 3);
    manager.address_pending_shimejis(vec![window(100), window(101), window(102)]);
    assert_eq!(manager.pending_count(), 0);
    for bucket in manager.buckets().iter() {
        assert_eq!(bucket.contained_shimejis(), 1);
    }
    // Every created window is routed to a bucket.
    for id in [100, 101, 102] {
        assert!(manager.route_resize(id, WindowSize { width: 7, height: 9 }).is_ok());
    }
}

#[test]
fn second_drain_fills_least_loaded_bucket() {
    let mut manager = BucketManager::new(3);
    let data = Arc::new(sample_data(1, 24));
    manager.add_shimeji(data.clone());
    manager.add_shimeji(data.clone());
    manager.address_pending_shimejis(vec![window(1), window(2)]);
    // Counts are now [1, 1, 0]; the next sprite must land on bucket 2.
    manager.add_shimeji(data);
    manager.address_pending_shimejis(vec![window(3)]);
    let counts: Vec<usize> =
        manager.buckets().iter().map(|b| b.contained_shimejis()).collect();
    assert_eq!(counts, vec![1, 1, 1]);
}

#[test]
fn route_resize_unknown_window_fails_loudly() {
    let mut manager = BucketManager::new(1);
    let result = manager.route_resize(99, WindowSize { width: 5, height: 5 });
    assert_eq!(result, Err(ManagerError::UnknownWindowRoute));
}

#[test]
fn bucket_operations_require_running() {
    let mut bucket = shimeji_engine::bucket::ShimejiBucket::new(0);
    assert!(!bucket.is_running());
    let data = Arc::new(sample_data(1, 24));
    assert_eq!(bucket.add(data, window(1)), Err(BucketError::NotRunning));
    assert_eq!(
        bucket.was_resized(1, WindowSize { width: 1, height: 1 }),
        Err(BucketError::NotRunning)
    );
}

#[test]
fn bucket_init_twice_fails() {
    let mut bucket = shimeji_engine::bucket::ShimejiBucket::new(4);
    assert_eq!(bucket.init(), Ok(()));
    assert!(bucket.is_running());
    assert_eq!(bucket.init(), Err(BucketError::DoubleInit));
}

#[test]
fn join_thread_is_idempotent() {
    let mut bucket = shimeji_engine::bucket::ShimejiBucket::new(0);
    assert_eq!(bucket.init(), Ok(()));
    assert_eq!(bucket.join_thread(), Ok(()));
    assert!(!bucket.is_running());
    // A second join finds no thread left and still succeeds.
    assert_eq!(bucket.join_thread(), Ok(()));
    assert!(!bucket.is_running());
    // Joining a bucket that never ran succeeds too.
    let mut fresh = shimeji_engine::bucket::ShimejiBucket::new(1);
    assert_eq!(fresh.join_thread(), Ok(()));
}

#[test]
fn bucket_inbox_keeps_send_order() {
    let mut bucket = shimeji_engine::bucket::ShimejiBucket::new(0);
    bucket.init().unwrap();
    let data = Arc::new(sample_data(1, 24));
    bucket.add(data, window(7)).unwrap();
    bucket.was_resized(7, WindowSize { width: 3, height: 4 }).unwrap();
    assert_eq!(bucket.contained_shimejis(), 1);
    let messages = bucket.drain_inbox();
    assert_eq!(messages.len(), 2);
    assert!(matches!(&messages[0], BucketThreadMessage::Add(w, _) if w.id == 7));
    assert!(
        matches!(&messages[1], BucketThreadMessage::Resized { id: 7, size } if size.width == 3)
    );
    assert_eq!(bucket.drain_inbox().len(), 0);
}

#[test]
fn frame_wraparound_after_last_frame() {
    let data = Arc::new(sample_data(3, 24));
    let mut unit = ShimejiWindow::new(window(1), data, 0);
    assert_eq!(unit.current_frame(), None);
    unit.update(50_000);
    assert_eq!(unit.current_frame(), Some(2));
    unit.update(100_000);
    assert_eq!(unit.current_frame(), Some(3));
    // Displaying frame 3 of 3: the next eligible tick wraps to frame 1.
    unit.update(150_000);
    assert_eq!(unit.current_frame(), Some(1));
}

#[test]
fn frame_pacing_skips_early_calls() {
    let data = Arc::new(sample_data(3, 24));
    let mut unit = ShimejiWindow::new(window(1), data, 0);
    // Less than one interval after construction: nothing happens.
    unit.update(INTERVAL_24FPS - 1);
    assert_eq!(unit.current_frame(), None);
    assert_eq!(unit.last_rendered_micros(), 0);
    // One full interval: the first frame advance happens.
    unit.update(INTERVAL_24FPS);
    assert_eq!(unit.current_frame(), Some(2));
    assert_eq!(unit.last_rendered_micros(), INTERVAL_24FPS);
    // A second call less than one interval later changes nothing.
    unit.update(INTERVAL_24FPS + INTERVAL_24FPS - 1);
    assert_eq!(unit.current_frame(), Some(2));
    assert_eq!(unit.last_rendered_micros(), INTERVAL_24FPS);
}

#[test]
fn fps_zero_paces_at_default_24() {
    let data = Arc::new(sample_data(2, 0));
    let mut unit = ShimejiWindow::new(window(1), data, 0);
    unit.update(INTERVAL_24FPS - 1);
    assert_eq!(unit.current_frame(), None);
    unit.update(INTERVAL_24FPS);
    assert_eq!(unit.current_frame(), Some(2));
}

#[test]
fn single_frame_clip_keeps_rendering_frame_one() {
    let data = Arc::new(sample_data(1, 24));
    let mut unit = ShimejiWindow::new(window(1), data, 0);
    unit.update(50_000);
    assert_eq!(unit.current_frame(), Some(1));
    unit.update(100_000);
    assert_eq!(unit.current_frame(), Some(1));
}

#[test]
fn update_blits_frame_pixels_into_surface() {
    let data = Arc::new(sample_data(3, 24));
    let mut unit = ShimejiWindow::new(window(1), data, 0);
    assert_eq!(unit.buffer().as_slice(), &[0, 0, 0, 0]);
    unit.update(50_000);
    // The first advance shows frame 2 (colour 20, 2, 3, 255).
    assert_eq!(unit.buffer().as_slice(), &[20, 2, 3, 255]);
}

#[test]
fn worker_adds_resizes_and_removes_units() {
    let mut worker = BucketWorker::new(0);
    assert!(worker.is_idle());
    let data = Arc::new(sample_data(2, 24));
    assert!(worker.handle_message(BucketThreadMessage::Add(window(5), data.clone()), 0));
    assert!(worker.handle_message(BucketThreadMessage::Add(window(6), data), 0));
    assert_eq!(worker.unit_count(), 2);
    assert!(worker.handle_message(
        BucketThreadMessage::Resized { id: 6, size: WindowSize { width: 30, height: 40 } },
        0,
    ));
    assert_eq!(worker.units()[1].surface_size(), WindowSize { width: 30, height: 40 });
    // A window this worker does not own cannot be resized or removed.
    assert!(!worker.handle_message(
        BucketThreadMessage::Resized { id: 9, size: WindowSize { width: 1, height: 1 } },
        0,
    ));
    assert!(!worker.handle_message(BucketThreadMessage::Remove(9), 0));
    assert!(worker.handle_message(BucketThreadMessage::Remove(5), 0));
    assert_eq!(worker.unit_count(), 1);
    assert_eq!(worker.units()[0].window_id(), 6);
}

#[test]
fn worker_update_all_steps_every_unit() {
    let mut worker = BucketWorker::new(0);
    let data = Arc::new(sample_data(3, 24));
    worker.handle_message(BucketThreadMessage::Add(window(1), data.clone()), 0);
    worker.handle_message(BucketThreadMessage::Add(window(2), data), 0);
    worker.update_all(50_000);
    assert_eq!(worker.units()[0].current_frame(), Some(2));
    assert_eq!(worker.units()[1].current_frame(), Some(2));
    // Within the interval nothing moves.
    worker.update_all(60_000);
    assert_eq!(worker.units()[0].current_frame(), Some(2));
}

#[test]
fn rgba_constructors_keep_channels() {
    let a = Rgba::new(1, 2, 3, 4);
    let b = Rgba::from_tuple((1, 2, 3, 4));
    assert_eq!(a, b);
    assert_eq!((a.red, a.green, a.blue, a.alpha), (1, 2, 3, 4));
}

#[test]
fn rgba_to_softbuf_u32_packs_premultiplied_channels() {
    // Fully transparent pixels pack to zero.
    assert_eq!(Rgba::new(200, 100, 50, 0).to_softbuf_u32(), 0);
    // Full alpha: channels pass through, red high, blue middle, green low.
    assert_eq!(Rgba::new(255, 10, 20, 255).to_softbuf_u32(), 0x00FF_140A);
    // Half alpha: each channel is scaled by 128/255 before packing.
    let expected = ((100u32 * 128 / 255) << 16) | ((200u32 * 128 / 255) << 8) | (50u32 * 128 / 255);
    assert_eq!(Rgba::new(100, 50, 200, 128).to_softbuf_u32(), expected);
}

#[test]
fn request_exit_sets_the_shared_flag() {
    let mut manager = BucketManager::new(1);
    assert!(!manager.should_exit());
    manager.request_exit();
    assert!(manager.should_exit());
}

#[test]
fn drain_bucket_inbox_hands_out_queued_messages_once() {
    let mut manager = BucketManager::new(2);
    let data = Arc::new(sample_data(1, 24));
    manager.add_shimeji(data);
    manager.address_pending_shimejis(vec![window(42)]);
    // The single sprite went to one bucket; its inbox holds the Add.
    let target: usize = (0..2)
        .find(|&i| manager.buckets()[i].contained_shimejis() == 1)
        .unwrap();
    let messages = manager.drain_bucket_inbox(target);
    assert_eq!(messages.len(), 1);
    assert!(matches!(&messages[0], BucketThreadMessage::Add(w, _) if w.id == 42));
    assert_eq!(manager.drain_bucket_inbox(target).len(), 0);
}

#[test]
fn drain_with_nothing_pending_changes_nothing() {
    let mut manager = BucketManager::new(2);
    manager.address_pending_shimejis(Vec::new());
    assert_eq!(manager.pending_count(), 0);
    for bucket in manager.buckets().iter() {
        assert_eq!(bucket.contained_shimejis(), 0);
    }
}

#[test]
fn messages_flow_from_manager_to_worker_to_unit() {
    // The whole path: queue a sprite, drain it to a bucket, move the bucket's
    // inbox into its worker, and watch the worker animate the unit.
    let mut manager = BucketManager::new(1);
    let data = Arc::new(sample_data(2, 24));
    manager.add_shimeji(data);
    manager.address_pending_shimejis(vec![window(77)]);
    let mut worker = BucketWorker::new(0);
    for message in manager.drain_bucket_inbox(0) {
        assert!(worker.handle_message(message, 0));
    }
    assert_eq!(worker.unit_count(), 1);
    assert_eq!(worker.units()[0].window_id(), 77);
    worker.update_all(50_000);
    assert_eq!(worker.units()[0].current_frame(), Some(2));
}
