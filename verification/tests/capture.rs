use poshumim_hwscreen::engine::capture::{
    choose_monitor, default_monitor, enumerate_monitors, monitor_rect, Capture, MonitorRect,
    RawMonitor,
};

fn raw(left: i32, top: i32, right: i32, bottom: i32, flags: u32) -> RawMonitor {
    RawMonitor { left, top, right, bottom, flags }
}

#[test]
fn rectangles() {
    assert_eq!(
        monitor_rect(&raw(-1920, 10, 0, 1090, 1)),
        MonitorRect { x: -1920, y: 10, width: 1920, height: 1080, primary: true }
    );
    assert_eq!(
        monitor_rect(&raw(5, 5, 3, 5, 2)),
        MonitorRect { x: 5, y: 5, width: 0, height: 0, primary: false }
    );
    assert!(monitor_rect(&raw(0, 0, 1, 1, 0xffff_ffff)).primary);
}

#[test]
fn monitor_choice() {
    let mons = enumerate_monitors(&vec![
        raw(-100, 0, 0, 50, 0),
        raw(0, 0, 100, 50, 1),
        raw(100, 0, 200, 50, 1),
    ]);
    assert_eq!(mons.len(), 3);
    assert_eq!(mons[0].x, -100);
    assert_eq!(choose_monitor(&mons, 100, 0), Some(2));
    assert_eq!(choose_monitor(&mons, -100, 0), Some(0));
    assert_eq!(choose_monitor(&mons, 7, 7), Some(1));
    assert_eq!(default_monitor(&mons), Some(1));
    let none_primary = enumerate_monitors(&vec![raw(1, 1, 2, 2, 0), raw(3, 3, 4, 4, 0)]);
    assert_eq!(choose_monitor(&none_primary, 7, 7), Some(0));
    assert_eq!(choose_monitor(&vec![], 0, 0), None);
    assert_eq!(default_monitor(&vec![]), None);
}

#[test]
fn edges_can_be_read_back() {
    let r = monitor_rect(&raw(-7, -9, 20, 30, 0));
    assert_eq!(r.x + r.width as i32, 20);
    assert_eq!(r.y + r.height as i32, 30);
}

#[test]
fn frames() {
    let mut c = Capture::new(4, 2);
    assert_eq!(c.size(), (4, 2));
    assert!(c.next_bgra().bgra.is_empty());
    assert!(c.frame_arrived(3, 2));
    assert_eq!(c.size(), (3, 2));
    c.staging_created();
    assert_eq!(c.mapped_len(16), Some(32));
    let bytes: Vec<u8> = (0..32).collect();
    c.store(&bytes, 16);
    let f = c.next_bgra();
    assert_eq!(f.bgra, &bytes[..]);
    assert_eq!((f.row_pitch, f.width, f.height), (16, 3, 2));
    assert!(!c.frame_arrived(3, 2));
    assert!(c.frame_arrived(3, 3));
    assert!(c.frame_arrived(4, 3));
    assert_eq!(c.mapped_len(usize::MAX), None);
    c.store(&[9; 12], 4);
    assert_eq!(c.next_bgra().bgra, &[9; 12][..]);
}
