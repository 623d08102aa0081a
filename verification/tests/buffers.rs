use anytimeuniverse::sim::push_snapshot;
use anytimeuniverse::sim::Command;
use anytimeuniverse::sim::SimClock;
use anytimeuniverse::sim::Stats;
use anytimeuniverse::triple_buffer::TripleBuffer;
use std::time::Duration;

#[test]
fn reader_sees_what_writer_published() {
    let mut tb: TripleBuffer<u32> = TripleBuffer::new();
    assert_eq!(*tb.read(), 0);
    assert!(!tb.update());
    *tb.write() = 5;
    assert_eq!(*tb.read(), 0);
    tb.publish();
    assert_eq!(*tb.read(), 0);
    assert!(tb.update());
    assert_eq!(*tb.read(), 5);
    assert!(!tb.update());
    assert_eq!(*tb.read(), 5);
}

#[test]
fn latest_publication_wins() {
    let mut tb: TripleBuffer<u32> = TripleBuffer::new();
    *tb.write() = 1;
    tb.publish();
    *tb.write() = 2;
    tb.publish();
    assert!(tb.update());
    assert_eq!(*tb.read(), 2);
}

#[test]
fn writer_never_writes_into_front() {
    let mut tb: TripleBuffer<u32> = TripleBuffer::new();
    for v in 1..20u32 {
        *tb.write() = v;
        tb.publish();
        if v % 3 == 0 {
            assert!(tb.update());
            assert_eq!(*tb.read(), v);
            *tb.write() = 999;
            assert_eq!(*tb.read(), v);
        }
    }
}

#[test]
fn stats_default_is_empty() {
    let s = Stats::default();
    assert_eq!(s.tick, 0);
    assert!(s.color_counts.is_empty());
    assert!(s.branch_density.is_none());
}

#[test]
fn snapshot_reaches_reader() {
    let mut tb: TripleBuffer<Stats> = TripleBuffer::new();
    push_snapshot(&mut tb, 17);
    assert!(tb.update());
    assert_eq!(tb.read().tick, 17);
}

#[test]
fn clock_commands() {
    let mut c = SimClock::new();
    assert_eq!(c.tick, 0);
    assert!(!c.is_paused);
    assert_eq!(c.speed_limit, Duration::from_millis(66));
    assert!(c.advance());
    assert!(c.advance());
    assert_eq!(c.tick, 2);
    c.apply(Command::Pause);
    assert!(!c.advance());
    assert_eq!(c.tick, 2);
    c.apply(Command::Resume);
    assert!(c.advance());
    assert_eq!(c.tick, 3);
    c.apply(Command::Reset);
    assert_eq!(c.tick, 0);
    assert!(c.advance());
    assert_eq!(c.tick, 1);
    c.apply(Command::SetSpeed(Duration::from_millis(4)));
    assert_eq!(c.speed_limit, Duration::from_millis(4));
    c.apply(Command::SetBranchProjection);
    assert_eq!(c.tick, 1);
}

#[test]
fn clock_wraps_at_u32_max() {
    let mut c = SimClock::new();
    c.tick = u32::MAX;
    assert!(c.advance());
    assert_eq!(c.tick, 0);
}

#[test]
fn update_without_publish_keeps_slots() {
    let mut tb: TripleBuffer<u32> = TripleBuffer::new();
    *tb.write() = 3;
    tb.publish();
    assert!(tb.update());
    let front = *tb.read();
    *tb.write() = 8;
    assert!(!tb.update());
    assert_eq!(*tb.read(), front);
    assert_eq!(*tb.write(), 8);
}
