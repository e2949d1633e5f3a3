use compute_path_tracer::utility::functions::flipped_pixel_index;
use compute_path_tracer::utility::structs::PingPongData;
use compute_path_tracer::sdf_editor::primitives::{RecUpdate, SceneEdit};

#[test]
fn ping_pong_starts_with_first() {
    let p = PingPongData::new(1u32, 2u32);
    assert_eq!(*p.pull_current(), 1);
    assert_eq!(*p.pull_other(), 2);
}

#[test]
fn ping_pong_swaps_roles() {
    let mut p = PingPongData::new("a".to_string(), "b".to_string());
    p.ping_pong();
    assert_eq!(p.pull_current(), "b");
    assert_eq!(p.pull_other(), "a");
}

#[test]
fn ping_pong_twice_restores() {
    let mut p = PingPongData::new(10i64, -3i64);
    p.ping_pong();
    p.ping_pong();
    assert_eq!(*p.pull_current(), 10);
    assert_eq!(*p.pull_other(), -3);
}

#[test]
fn rec_update_constructors() {
    let f = RecUpdate::set_false();
    assert!(!f.queue_compile && !f.queue_update);
    let t = RecUpdate::set_true();
    assert!(t.queue_compile && t.queue_update);
}

#[test]
fn rec_update_requests() {
    let mut r = RecUpdate::set_false();
    r.update();
    assert!(r.queue_update && !r.queue_compile);
    r.reset();
    r.compile();
    assert!(r.queue_compile && !r.queue_update);
    r.reset();
    r.both();
    assert!(r.queue_compile && r.queue_update);
    r.reset();
    assert_eq!(r, RecUpdate::set_false());
}

#[test]
fn flipped_pixel_index_reads_rows_bottom_up() {
    assert_eq!(flipped_pixel_index(4, 3, 0, 0), 2 * 4 * 4);
    assert_eq!(flipped_pixel_index(4, 3, 3, 2), 3 * 4);
    assert_eq!(flipped_pixel_index(1, 1, 0, 0), 0);
}

#[test]
fn ping_pong_parity_after_many_swaps() {
    let mut p = PingPongData::new('a', 'b');
    for n in 1..=7u32 {
        p.ping_pong();
        let (cur, other) = if n % 2 == 0 { ('a', 'b') } else { ('b', 'a') };
        assert_eq!(*p.pull_current(), cur);
        assert_eq!(*p.pull_other(), other);
        assert!(!std::ptr::eq(p.pull_current(), p.pull_other()));
    }
}

#[test]
fn edits_queue_their_work() {
    let mut r = RecUpdate::set_false();
    r.queue_edit(SceneEdit::ShapeKind);
    assert_eq!(r, RecUpdate { queue_compile: true, queue_update: false });
    let mut r = RecUpdate::set_false();
    r.queue_edit(SceneEdit::Values);
    assert_eq!(r, RecUpdate { queue_compile: false, queue_update: true });
    let mut r = RecUpdate::set_false();
    r.queue_edit(SceneEdit::UnionType);
    assert_eq!(r, RecUpdate::set_true());
    let mut r = RecUpdate::set_false();
    r.queue_edit(SceneEdit::BoundsToggle);
    assert_eq!(r, RecUpdate::set_true());
    r.reset();
    r.queue_edit(SceneEdit::Values);
    r.queue_edit(SceneEdit::ShapeKind);
    assert_eq!(r, RecUpdate::set_true());
}
