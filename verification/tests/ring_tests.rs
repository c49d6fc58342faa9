use kfs::color::{Color, ColorCode, ScreenChar};
use kfs::ring::LineRing;

fn mk_line(tag: u8) -> Vec<ScreenChar> {
    let color = ColorCode::new(Color::White, Color::Black);
    let mut line = Vec::new();
    line.push(ScreenChar { ascii: tag, color });
    for _ in 1..80 {
        line.push(ScreenChar { ascii: b' ', color });
    }
    line
}

#[test]
fn fresh_ring_is_empty_with_blank_slots() {
    let ring = LineRing::new();
    assert_eq!(ring.len(), 0);
    assert_eq!(ring.newest_index(), 0);
    let last = ring.last_line();
    assert_eq!(last.len(), 80);
    for cell in &last {
        assert_eq!(cell.ascii, b' ');
        assert_eq!(cell.color, ColorCode::new(Color::White, Color::Black));
    }
}

#[test]
fn push_and_read_back() {
    let mut ring = LineRing::new();
    ring.push_new_line(mk_line(b'a'));
    assert_eq!(ring.len(), 1);
    assert_eq!(ring.last_line()[0].ascii, b'a');
    ring.push_new_line(mk_line(b'b'));
    assert_eq!(ring.len(), 2);
    assert_eq!(ring.last_line()[0].ascii, b'b');
}

#[test]
fn overfull_ring_retains_exactly_the_last_lines() {
    // 250 pushes into a 200-line ring: the ring must retain lines 50..249,
    // in insertion order, and its size must never exceed the capacity.
    let mut ring = LineRing::new();
    for i in 0..250u32 {
        ring.push_new_line(mk_line((i % 251) as u8));
        assert!(ring.len() <= 200);
    }
    assert_eq!(ring.len(), 200);
    assert_eq!(ring.last_line()[0].ascii, (249 % 251) as u8);
    // Popping from the front yields the oldest retained line: number 50.
    let oldest = ring.pop_oldest_line().expect("ring holds lines");
    assert_eq!(oldest[0].ascii, (50 % 251) as u8);
    assert_eq!(ring.len(), 199);
    let next_oldest = ring.pop_oldest_line().expect("ring holds lines");
    assert_eq!(next_oldest[0].ascii, (51 % 251) as u8);
}

#[test]
fn pop_on_empty_ring_returns_nothing() {
    let mut ring = LineRing::new();
    assert!(ring.pop_oldest_line().is_none());
    assert_eq!(ring.len(), 0);
}

#[test]
fn clear_resets_to_one_blank_line() {
    let mut ring = LineRing::new();
    for i in 0..10u8 {
        ring.push_new_line(mk_line(i));
    }
    let color = ColorCode::new(Color::Green, Color::Black);
    ring.clear(color);
    assert_eq!(ring.len(), 1);
    let last = ring.last_line();
    for cell in &last {
        assert_eq!(cell.ascii, b' ');
        assert_eq!(cell.color, color);
    }
}
