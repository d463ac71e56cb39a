use tardy::{take_frames, Frame, MIN_SPAN};

fn sample(n: u64) -> Frame {
    Frame::new(n, 60, 70, 200, 100)
}

#[test]
fn frame_new_keeps_parts() {
    let f = Frame::new(3, 60, 70, 200, 100);
    assert_eq!(f.monitor, 3);
    assert_eq!(f.x, 60);
    assert_eq!(f.y, 70);
    assert_eq!(f.width, 200);
    assert_eq!(f.height, 100);
}

#[test]
fn from_monitor_fits_screen() {
    for _ in 0..50 {
        let f = Frame::from_monitor(1, 1920, 1080);
        assert_eq!(f.monitor, 1);
        assert!(f.width >= MIN_SPAN && f.width < 1920 - MIN_SPAN);
        assert!(f.height >= MIN_SPAN && f.height < 1080 - MIN_SPAN);
        assert!(f.x >= MIN_SPAN && f.x + f.width < 1920);
        assert!(f.y >= MIN_SPAN && f.y + f.height < 1080);
    }
}

#[test]
fn take_frames_pops_newest_first() {
    let mut pool = vec![sample(0), sample(1), sample(2), sample(3)];
    let taken = take_frames(&mut pool, 3);
    assert_eq!(taken, vec![sample(3), sample(2), sample(1)]);
    assert_eq!(pool, vec![sample(0)]);
}

#[test]
fn take_frames_short_pool_gives_all() {
    let mut pool = vec![sample(7), sample(8)];
    let taken = take_frames(&mut pool, 5);
    assert_eq!(taken, vec![sample(8), sample(7)]);
    assert!(pool.is_empty());
}

#[test]
fn take_frames_empty_pool_gives_empty() {
    let mut pool: Vec<Frame> = Vec::new();
    let taken = take_frames(&mut pool, 10);
    assert!(taken.is_empty());
    assert!(pool.is_empty());
}
