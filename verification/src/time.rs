//! UTC instants as chrono keeps them, their millisecond count, and the
//! times of the points of a track measured from its first point.
use vstd::prelude::*;

verus! {

/// A UTC instant: whole seconds since 1970-01-01T00:00:00Z and the
/// nanoseconds past that second. During a leap second the nanoseconds are
/// one billion or more, as in chrono.
#[derive(Clone, Copy, PartialEq, Eq, Debug, Structural)]
pub struct Timestamp {
    pub secs: i64,
    pub nanos: u32,
}

/// Milliseconds since the epoch, leap seconds not counted apart: chrono's
/// `DateTime::timestamp_millis`, `secs * 1000 + nanos / 1_000_000`.
pub open spec fn millis_of(t: Timestamp) -> int {
    t.secs * 1000 + t.nanos / 1_000_000
}

/// The millisecond count of `t` fits in an `i64`.
pub open spec fn millis_fit(t: Timestamp) -> bool {
    i64::MIN <= millis_of(t) <= i64::MAX
}

/// `t` is not inside a leap second.
pub open spec fn is_regular(t: Timestamp) -> bool {
    t.nanos < 1_000_000_000
}

/// `a` is not later than `b`.
pub open spec fn not_after(a: Timestamp, b: Timestamp) -> bool {
    a.secs < b.secs || (a.secs == b.secs && a.nanos <= b.nanos)
}

/// The time that chrono reads from the text `text` (`DateTime<Utc>` from
/// `str::parse`) as seconds and nanoseconds, or `None` where chrono refuses
/// the text.
pub uninterp spec fn utc_time_of(text: Seq<char>) -> Option<(i64, u32)>;

/// Reads `text` as a UTC time with chrono's `FromStr` for `DateTime<Utc>`
/// (RFC 3339, also with a space between date and time) and hands back its
/// `timestamp()` and `timestamp_subsec_nanos()`.
///
/// Trusted: the result is the named `utc_time_of(text@)`; besides, chrono
/// keeps its nanoseconds below two billion and its years within
/// -262143..=262142, so that the seconds lie within 10^13 of the epoch.
#[verifier::external_body]
pub(crate) fn parse_utc(text: &str) -> (res: Option<Timestamp>)
    ensures
        match res {
            Some(t) => utc_time_of(text@) == Some((t.secs, t.nanos)) && t.nanos < 2_000_000_000
                && -10_000_000_000_000 < t.secs < 10_000_000_000_000,
            None => utc_time_of(text@) is None,
        },
{
    let time = text.parse::<chrono::DateTime<chrono::Utc>>().ok()?;
    Some(Timestamp { secs: time.timestamp(), nanos: time.timestamp_subsec_nanos() })
}

impl Timestamp {
    /// Milliseconds since the epoch (chrono's `timestamp_millis`).
    pub fn millis(&self) -> (res: i64)
        requires
            millis_fit(*self),
        ensures
            res == millis_of(*self),
    {
        let wide: i128 = self.secs as i128 * 1000 + (self.nanos / 1_000_000) as i128;
        wide as i64
    }
}

/// Milliseconds from the first of `times` to the `i`-th.
pub open spec fn offset_of(times: Seq<Timestamp>, i: int) -> int {
    millis_of(times[i]) - millis_of(times[0])
}

/// `offsets` are the offsets of `times` from the first of them.
pub open spec fn are_offsets(offsets: Seq<i64>, times: Seq<Timestamp>) -> bool {
    &&& offsets.len() == times.len()
    &&& forall|i: int| 0 <= i < offsets.len() ==> #[trigger] offsets[i] == offset_of(times, i)
}

/// The time of each point relative to the first one, in milliseconds: the
/// `z` that a participation's track carries (in seconds there).
pub fn offsets_from_start(times: &Vec<Timestamp>) -> (res: Vec<i64>)
    requires
        times@.len() > 0,
        forall|i: int| 0 <= i < times@.len() ==> millis_fit(#[trigger] times@[i]),
        forall|i: int|
            0 <= i < times@.len() ==> i64::MIN <= millis_of(#[trigger] times@[i]) - millis_of(
                times@[0],
            ) <= i64::MAX,
    ensures
        res@.len() == times@.len(),
        forall|i: int| 0 <= i < res@.len() ==> #[trigger] res@[i] == offset_of(times@, i),
{
    let start = times[0].millis();
    let mut res: Vec<i64> = Vec::new();
    for i in 0..times.len()
        invariant
            start == millis_of(times@[0]),
            res@.len() == i,
            forall|i: int| 0 <= i < times@.len() ==> millis_fit(#[trigger] times@[i]),
            forall|i: int|
                0 <= i < times@.len() ==> i64::MIN <= millis_of(#[trigger] times@[i]) - millis_of(
                    times@[0],
                ) <= i64::MAX,
            forall|k: int| 0 <= k < i ==> #[trigger] res@[k] == offset_of(times@, k),
    {
        let t = times[i].millis();
        assert(i64::MIN <= millis_of(times@[i as int]) - millis_of(times@[0]) <= i64::MAX);
        res.push(t - start);
    }
    res
}

/// Every point of a track has a time, and there is at least one point.
pub open spec fn all_timed(times: Seq<Option<Timestamp>>) -> bool {
    &&& times.len() > 0
    &&& forall|i: int| 0 <= i < times.len() ==> (#[trigger] times[i]) is Some
}

/// The times of the points, where each has one.
pub open spec fn unwrap_times(times: Seq<Option<Timestamp>>) -> Seq<Timestamp> {
    times.map_values(|t: Option<Timestamp>| t.unwrap())
}

/// Each millisecond count of `times`, and each difference from the first,
/// fits in an `i64`.
pub open spec fn offsets_fit(times: Seq<Timestamp>) -> bool {
    &&& forall|i: int| 0 <= i < times.len() ==> millis_fit(#[trigger] times[i])
    &&& forall|i: int|
        0 <= i < times.len() ==> i64::MIN <= #[trigger] offset_of(times, i) <= i64::MAX
}

/// `res` is what the points with times `times` give: their offsets from the
/// first point where every point has a time, else nothing.
pub open spec fn timed_offsets(times: Seq<Option<Timestamp>>, res: Option<Vec<i64>>) -> bool {
    &&& res is Some <==> all_timed(times)
    &&& res matches Some(v) ==> are_offsets(v@, unwrap_times(times))
}

/// The offsets of the points from the first one where every point has a
/// time, else `None`.
pub fn offsets_if_timed(times: &Vec<Option<Timestamp>>) -> (res: Option<Vec<i64>>)
    requires
        all_timed(times@) ==> offsets_fit(unwrap_times(times@)),
    ensures
        timed_offsets(times@, res),
{
    if times.len() == 0 {
        return None;
    }
    let ghost all = unwrap_times(times@);
    let mut present: Vec<Timestamp> = Vec::new();
    for i in 0..times.len()
        invariant
            all == unwrap_times(times@),
            times@.len() > 0,
            present@ == all.take(i as int),
            forall|k: int| 0 <= k < i ==> (#[trigger] times@[k]) is Some,
    {
        match times[i] {
            Some(t) => {
                present.push(t);
                assert(present@ =~= all.take(i + 1));
            },
            None => {
                assert(!all_timed(times@));
                return None;
            },
        }
    }
    assert(present@ =~= all);
    assert(all_timed(times@));
    assert forall|i: int| 0 <= i < present@.len() implies millis_fit(#[trigger] present@[i])
        && i64::MIN <= millis_of(present@[i]) - millis_of(present@[0]) <= i64::MAX by {
        assert(offset_of(all, i) == millis_of(present@[i]) - millis_of(present@[0]));
    }
    let offsets = offsets_from_start(&present);
    assert(are_offsets(offsets@, all));
    Some(offsets)
}

/// Law: outside leap seconds, a later instant never has a smaller
/// millisecond count.
pub proof fn lemma_millis_monotone(a: Timestamp, b: Timestamp)
    requires
        not_after(a, b),
        is_regular(a),
    ensures
        millis_of(a) <= millis_of(b),
{
    assert(a.nanos / 1_000_000 < 1000);
    if a.secs == b.secs {
        assert(a.nanos / 1_000_000 <= b.nanos / 1_000_000) by (nonlinear_arith)
            requires
                a.nanos <= b.nanos,
        ;
    }
}

/// Law: the offsets of two points differ by exactly the milliseconds
/// between their times, the first point's offset is zero, and a point not
/// earlier than a first point outside a leap second has no negative offset.
pub proof fn lemma_offsets_keep_gaps(times: Seq<Timestamp>, i: int, j: int)
    requires
        0 <= i < times.len(),
        0 <= j < times.len(),
    ensures
        offset_of(times, j) - offset_of(times, i) == millis_of(times[j]) - millis_of(times[i]),
        offset_of(times, 0) == 0,
        not_after(times[0], times[j]) && is_regular(times[0]) ==> offset_of(times, j) >= 0,
{
    if not_after(times[0], times[j]) && is_regular(times[0]) {
        lemma_millis_monotone(times[0], times[j]);
    }
}

} // verus!
