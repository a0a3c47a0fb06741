use frienduro::split::split_ranges;
use frienduro::tally::{SegmentTally, MAX_SPAN_NANOS};
use frienduro::time::{offsets_from_start, offsets_if_timed, Timestamp};
use frienduro::track::{participation_offsets, read_gpx};

#[test]
fn millis_counts_whole_milliseconds() {
    assert_eq!(Timestamp { secs: 1556704805, nanos: 250_999_999 }.millis(), 1556704805250);
    assert_eq!(Timestamp { secs: -1, nanos: 500_000_000 }.millis(), -500);
    assert_eq!(Timestamp { secs: 0, nanos: 0 }.millis(), 0);
}

#[test]
fn millis_inside_leap_second_exceeds_next_second() {
    let leap = Timestamp { secs: 59, nanos: 1_500_000_000 };
    let next = Timestamp { secs: 60, nanos: 0 };
    assert!(leap.millis() > next.millis());
}

#[test]
fn offsets_are_measured_from_first_point() {
    let times = vec![
        Timestamp { secs: 100, nanos: 0 },
        Timestamp { secs: 100, nanos: 500_000_000 },
        Timestamp { secs: 163, nanos: 1_000_000 },
        Timestamp { secs: 99, nanos: 0 },
    ];
    let offsets = offsets_from_start(&times);
    assert_eq!(offsets, vec![0, 500, 63001, -1000]);
    assert_eq!(offsets[2] - offsets[1], times[2].millis() - times[1].millis());
}

const TRACK: &str = r#"<?xml version="1.0" encoding="UTF-8"?>
<gpx version="1.1" creator="test" xmlns="http://www.topografix.com/GPX/1/1">
  <trk><trkseg>
    <trkpt lat="47.0" lon="8.0"><time>2019-05-01T10:00:00Z</time></trkpt>
    <trkpt lat="47.1" lon="8.1"><time>2019-05-01T10:00:02.5Z</time></trkpt>
    <trkpt lat="47.2" lon="8.2"><time>2019-05-01T10:01:00Z</time></trkpt>
  </trkseg></trk>
</gpx>"#;

#[test]
fn read_gpx_accepts_track_and_refuses_garbage() {
    let gpx = read_gpx(TRACK).unwrap();
    assert_eq!(gpx.tracks[0].segments[0].points.len(), 3);
    assert!(read_gpx("not a gpx file").is_err());
}

#[test]
fn participation_offsets_of_gpx_track() {
    let gpx = read_gpx(TRACK).unwrap();
    let offsets = participation_offsets(&gpx.tracks[0].segments[0].points).unwrap();
    assert_eq!(offsets, vec![0, 2500, 60000]);
}

#[test]
fn participation_offsets_needs_points_with_times() {
    assert_eq!(participation_offsets(&[]), None);
    let untimed = TRACK.replace("<time>2019-05-01T10:01:00Z</time>", "");
    let gpx = read_gpx(&untimed).unwrap();
    assert_eq!(participation_offsets(&gpx.tracks[0].segments[0].points), None);
}

#[test]
fn split_ranges_cuts_equal_pieces_with_gaps() {
    assert_eq!(split_ranges(100, 2, 30, 5), vec![(0, 30), (35, 65), (70, 100)]);
    assert_eq!(split_ranges(10, 0, 10, 0), vec![(0, 10)]);
    assert_eq!(split_ranges(7, 3, 1, 1), vec![(0, 1), (2, 3), (4, 5), (6, 7)]);
}

#[test]
fn split_pieces_are_in_order_and_disjoint() {
    let pieces = split_ranges(1000, 4, 150, 60);
    for w in pieces.windows(2) {
        assert_eq!(w[0].1 - w[0].0, 150);
        assert!(w[0].1 + 60 <= w[1].0);
    }
    assert!(pieces.last().unwrap().1 <= 1000);
}

#[test]
fn tally_counts_non_negative_times() {
    let mut tally = SegmentTally::new();
    assert!(tally.record(2_500_000_000));
    assert!(!tally.record(-1));
    assert!(tally.record(0));
    assert_eq!(tally.matched(), 2);
    assert_eq!(tally.total_nanos(), 2_500_000_000);
    assert_eq!(tally.finish(2), Some(2));
    assert_eq!(tally.finish(3), None);
}

#[test]
fn tally_of_no_segments_is_finished_at_zero() {
    let tally = SegmentTally::new();
    assert_eq!(tally.finish(0), Some(0));
    assert_eq!(tally.finish(1), None);
}

#[test]
fn tally_reaches_largest_span() {
    let mut tally = SegmentTally::new();
    assert!(tally.record(MAX_SPAN_NANOS));
    assert_eq!(tally.finish(1), Some(9_223_372_036_854_775));
}

#[test]
fn offsets_if_timed_needs_every_time() {
    let t = |secs: i64, nanos: u32| Some(Timestamp { secs, nanos });
    assert_eq!(offsets_if_timed(&vec![t(10, 0), t(12, 250_000_000)]), Some(vec![0, 2250]));
    assert_eq!(offsets_if_timed(&vec![t(10, 0), None, t(12, 0)]), None);
    assert_eq!(offsets_if_timed(&vec![]), None);
}
