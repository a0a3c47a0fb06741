//! Tracks read with the gpx crate: reading a GPX text, and the times of a
//! participation's points measured from its first point.
use vstd::prelude::*;

use crate::time::{
    are_offsets, offset_of, offsets_fit, offsets_if_timed, millis_fit, timed_offsets, unwrap_times,
    all_timed, lemma_millis_monotone, Timestamp,
};

verus! {

#[verifier::external_type_specification]
#[verifier::external_body]
pub struct ExGpx(::gpx::Gpx);

#[verifier::external_type_specification]
#[verifier::external_body]
pub struct ExGpxError(::gpx::errors::Error);

#[verifier::external_type_specification]
#[verifier::external_body]
pub struct ExWaypoint(::gpx::Waypoint);

/// The document that the gpx crate reads from the text `text`, or `None`
/// where it refuses the text.
pub uninterp spec fn gpx_document(text: Seq<char>) -> Option<::gpx::Gpx>;

/// Reads `text` with `gpx::read`.
///
/// Trusted: it succeeds exactly where the named `gpx_document(text@)` is
/// some document, and then gives that document.
#[verifier::external_body]
fn gpx_read(text: &str) -> (res: Result<::gpx::Gpx, ::gpx::errors::Error>)
    ensures
        res is Ok <==> gpx_document(text@) is Some,
        res matches Ok(g) ==> gpx_document(text@) == Some(g),
{
    ::gpx::read(std::io::Cursor::new(text.as_bytes()))
}

/// The time that the waypoint `wp` carries in its `time` field, as chrono's
/// `timestamp()` and `timestamp_subsec_nanos()`, or `None` where it has none.
pub uninterp spec fn waypoint_time_of(wp: ::gpx::Waypoint) -> Option<(i64, u32)>;

/// The time of the waypoint `wp`.
pub open spec fn waypoint_timestamp(wp: ::gpx::Waypoint) -> Option<Timestamp> {
    match waypoint_time_of(wp) {
        Some(p) => Some(Timestamp { secs: p.0, nanos: p.1 }),
        None => None,
    }
}

/// The times of the waypoints `wps`, one for each.
pub open spec fn waypoint_times(wps: Seq<::gpx::Waypoint>) -> Seq<Option<Timestamp>> {
    Seq::new(wps.len(), |i: int| waypoint_timestamp(wps[i]))
}

/// The time of the waypoint `wp` (its `time` field, a chrono
/// `DateTime<Utc>`), as `timestamp()` and `timestamp_subsec_nanos()`.
///
/// Trusted: the result is the named `waypoint_time_of(*wp)`; besides,
/// chrono keeps nanoseconds below two billion and seconds within 10^13 of
/// the epoch.
#[verifier::external_body]
fn waypoint_time(wp: &::gpx::Waypoint) -> (res: Option<Timestamp>)
    ensures
        res == match waypoint_time_of(*wp) {
            Some(p) => Some(Timestamp { secs: p.0, nanos: p.1 }),
            None => None,
        },
        res matches Some(t) ==> t.nanos < 2_000_000_000 && -10_000_000_000_000 < t.secs
            < 10_000_000_000_000,
{
    let time = wp.time?;
    Some(Timestamp { secs: time.timestamp(), nanos: time.timestamp_subsec_nanos() })
}

/// Reads a GPX document from the text `gpx_data`.
pub fn read_gpx(gpx_data: &str) -> (res: Result<::gpx::Gpx, ::gpx::errors::Error>)
    ensures
        res is Ok <==> gpx_document(gpx_data@) is Some,
        res matches Ok(g) ==> gpx_document(gpx_data@) == Some(g),
{
    gpx_read(gpx_data)
}

/// Milliseconds since the epoch of a time given as chrono's seconds and
/// nanoseconds (`timestamp_millis`).
pub open spec fn millis_of_pair(p: (i64, u32)) -> int {
    p.0 * 1000 + p.1 / 1_000_000
}

/// Law: a participation is timed exactly where it has waypoints and every
/// waypoint carries a time, and then each offset is the millisecond count of
/// the time that waypoint carries less that of the first waypoint's time;
/// so, outside leap seconds, a waypoint whose time is not earlier than
/// another's has an offset not below the other's.
pub proof fn lemma_offsets_follow_waypoint_times(wps: Seq<::gpx::Waypoint>, res: Option<Vec<i64>>)
    requires
        timed_offsets(waypoint_times(wps), res),
    ensures
        res is Some <==> (wps.len() > 0 && forall|i: int|
            0 <= i < wps.len() ==> waypoint_time_of(#[trigger] wps[i]) is Some),
        res matches Some(v) ==> v@.len() == wps.len() && forall|i: int|
            0 <= i < wps.len() ==> #[trigger] v@[i] == millis_of_pair(
                waypoint_time_of(wps[i])->0,
            ) - millis_of_pair(waypoint_time_of(wps[0])->0),
        res matches Some(v) ==> forall|i: int, j: int|
            0 <= i < wps.len() && 0 <= j < wps.len() && ({
                let a = waypoint_time_of(wps[i])->0;
                let b = waypoint_time_of(wps[j])->0;
                a.1 < 1_000_000_000 && (a.0 < b.0 || (a.0 == b.0 && a.1 <= b.1))
            }) ==> #[trigger] v@[i] <= #[trigger] v@[j],
{
    let ts = waypoint_times(wps);
    if wps.len() > 0 && forall|i: int| 0 <= i < wps.len() ==> waypoint_time_of(#[trigger] wps[i]) is Some {
        assert forall|i: int| 0 <= i < ts.len() implies (#[trigger] ts[i]) is Some by {
            assert(waypoint_time_of(wps[i]) is Some);
        }
    }
    if res is Some {
        assert forall|i: int| 0 <= i < wps.len() implies waypoint_time_of(#[trigger] wps[i]) is Some by {
            assert(ts[i] is Some);
        }
    }
    if let Some(v) = res {
        let all = unwrap_times(ts);
        assert forall|i: int, j: int|
            0 <= i < wps.len() && 0 <= j < wps.len() && ({
                let a = waypoint_time_of(wps[i])->0;
                let b = waypoint_time_of(wps[j])->0;
                a.1 < 1_000_000_000 && (a.0 < b.0 || (a.0 == b.0 && a.1 <= b.1))
            }) implies #[trigger] v@[i] <= #[trigger] v@[j] by {
            assert(v@[i] == offset_of(all, i));
            assert(v@[j] == offset_of(all, j));
            lemma_millis_monotone(all[i], all[j]);
        }
    }
}

/// Seconds of chrono's whole range, and nanoseconds below two billion.
pub open spec fn in_chrono_range(t: Timestamp) -> bool {
    t.nanos < 2_000_000_000 && -10_000_000_000_000 < t.secs < 10_000_000_000_000
}

/// The time of each waypoint in milliseconds after the first waypoint, or
/// `None` where there is no waypoint or a waypoint has no time: the offsets
/// (`offsets_if_timed`) of the times that the waypoints carry.
pub fn participation_offsets(waypoints: &[::gpx::Waypoint]) -> (res: Option<Vec<i64>>)
    ensures
        waypoints@.len() == 0 ==> res is None,
        timed_offsets(waypoint_times(waypoints@), res),
        res matches Some(v) ==> forall|i: int|
            0 <= i < waypoints@.len() ==> #[trigger] v@[i] == millis_of_pair(
                waypoint_time_of(waypoints@[i])->0,
            ) - millis_of_pair(waypoint_time_of(waypoints@[0])->0),
        res matches Some(v) ==> v@.len() == waypoints@.len() && v@[0] == 0 && exists|
            times: Seq<Timestamp>,
        | #[trigger] are_offsets(v@, times),
{
    let mut times: Vec<Option<Timestamp>> = Vec::new();
    for i in 0..waypoints.len()
        invariant
            times@.len() == i,
            forall|k: int| 0 <= k < i ==> ((#[trigger] times@[k]) matches Some(t) ==> in_chrono_range(t)),
            forall|k: int| 0 <= k < i ==> #[trigger] times@[k] == waypoint_timestamp(waypoints@[k]),
    {
        times.push(waypoint_time(&waypoints[i]));
    }
    let ghost all = unwrap_times(times@);
    proof {
        if all_timed(times@) {
            assert(forall|k: int| 0 <= k < all.len() ==> in_chrono_range(#[trigger] all[k]));
            assert(forall|k: int| 0 <= k < all.len() ==> millis_fit(#[trigger] all[k]));
            assert(offsets_fit(all));
        }
    }
    assert(times@ =~= waypoint_times(waypoints@));
    let res = offsets_if_timed(&times);
    proof {
        lemma_offsets_follow_waypoint_times(waypoints@, res);
    }
    if let Some(v) = &res {
        assert(offset_of(all, 0) == 0);
        assert(v@[0] == 0);
    }
    res
}

} // verus!
