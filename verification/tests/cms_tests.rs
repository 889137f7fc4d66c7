use irongate::cms::CountMinSketch;
use irongate::gate::IronGate;
use irongate::window::Seconds;
use irongate::window::Minutes;
use irongate::window::Resolution;
use irongate::window::TimeWindowCMS;

#[test]
fn count_ok() {
    let mut cms = TimeWindowCMS::new(0, 10, Seconds);

    assert_eq!(1, cms.add(0, b"foo"));
    assert_eq!(2, cms.add(0, b"foo"));
    assert_eq!(1, cms.add(0, b"bar"));
}

#[test]
fn count_across_segments() {
    let mut cms = TimeWindowCMS::new(0, 10, Seconds);

    assert_eq!(1, cms.add(0, b"foo"));
    assert_eq!(2, cms.add(1, b"foo"));
    assert_eq!(3, cms.add(2, b"foo"));
    assert_eq!(1, cms.add(12, b"foo"));
}

#[test]
fn sketch_never_undercounts() {
    let mut s = CountMinSketch::new(5, 2719);
    let mut i = 0;
    while i < 7 {
        s.insert(b"foo");
        i += 1;
    }
    s.insert(b"bar");
    assert!(s.estimate(b"foo") >= 7);
    assert!(s.estimate(b"bar") >= 1);
    assert!(s.estimate(b"baz") <= 8);
}

#[test]
fn sketch_exact_without_collisions() {
    let mut s = CountMinSketch::new(5, 2719);
    s.insert(b"alpha");
    s.insert(b"alpha");
    s.insert(b"beta");
    assert_eq!(2, s.estimate(b"alpha"));
    assert_eq!(1, s.estimate(b"beta"));
    assert_eq!(0, s.estimate(b"gamma"));
}

#[test]
fn backdated_event_rotates_nothing() {
    let mut cms = TimeWindowCMS::new(100, 10, Seconds);
    assert_eq!(1, cms.add(100, b"foo"));
    // an out-of-order timestamp still lands in the newest segment
    assert_eq!(2, cms.add(90, b"foo"));
    assert_eq!(3, cms.add(100, b"foo"));
}

#[test]
fn minutes_resolution() {
    assert_eq!(2, Minutes.segments(150));
    assert_eq!(0, Minutes.segments(59));
    assert!(Minutes.segments(-5) <= 0);
    let mut cms = TimeWindowCMS::new(0, 600, Minutes);
    assert_eq!(1, cms.add(0, b"foo"));
    assert_eq!(2, cms.add(59, b"foo"));
    // eleven minutes later the whole ten-segment window has turned over
    assert_eq!(1, cms.add(660, b"foo"));
}

#[test]
fn threshold_scenario() {
    let window = TimeWindowCMS::new(0, 10, Seconds);
    let mut gate = IronGate { limit: 3, window };
    assert_eq!((1, false), gate.observe(0, b"10.1.2.3"));
    assert_eq!((2, false), gate.observe(1, b"10.1.2.3"));
    assert_eq!((3, false), gate.observe(2, b"10.1.2.3"));
    // a fourth attempt in the same segment crosses the limit of three
    assert_eq!((4, true), gate.observe(2, b"10.1.2.3"));
    // an unrelated key does not escalate
    assert_eq!((1, false), gate.observe(2, b"10.9.9.9"));
}
