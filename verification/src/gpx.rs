//! Track points of a GPX 1.1 document.
//!
//! The reader follows the first `trk` element of the document element, the
//! first `trkseg` of that track, and takes every `trkpt` of that segment in
//! order. Latitude and longitude are the `lat` and `lon` attributes,
//! elevation the text of the first `ele` child, and the time the first
//! `time` child read as a UTC time. Numbers are handed out as the text that
//! the document holds.
use vstd::prelude::*;
use vstd::string::StringExecFns;

use crate::time::{parse_utc, utc_time_of, Timestamp};
use crate::xml::{
    attr_value, is_tagged, lemma_first_tagged_child, lemma_tagged_children, find_child, find_children, first_tagged_child, get_attr, read_tree,
    tagged_children, xml_tree, element_view, ElementModel, XmlElement,
};

verus! {

/// One point of a track.
pub struct Point {
    /// Text of the `lat` attribute, if any.
    pub lat: Option<String>,
    /// Text of the `lon` attribute, if any.
    pub lon: Option<String>,
    /// Text of the `ele` element, if any.
    pub ele: Option<String>,
    /// Time of the `time` element, if any.
    pub utc: Option<Timestamp>,
}

/// Mathematical model of a track point.
pub struct PointModel {
    pub lat: Option<Seq<char>>,
    pub lon: Option<Seq<char>>,
    pub ele: Option<Seq<char>>,
    pub utc: Option<Timestamp>,
}

impl DeepView for Point {
    type V = PointModel;

    open spec fn deep_view(&self) -> PointModel {
        PointModel {
            lat: self.lat.deep_view(),
            lon: self.lon.deep_view(),
            ele: self.ele.deep_view(),
            utc: self.utc,
        }
    }
}

/// Why a text is no GPX track.
#[derive(Clone, Copy, PartialEq, Eq, Debug, Structural)]
pub enum GpxError {
    /// The text is not well-formed XML.
    InvalidXml,
    /// The document element has no `trk` child.
    MissingTrack,
    /// The track has no `trkseg` child.
    MissingSegment,
    /// The `time` of the track point at this position is no UTC time.
    InvalidTime { point: usize },
}

/// The GPX 1.1 namespace.
pub open spec fn gpx_ns() -> Seq<char> {
    "http://www.topografix.com/GPX/1/1"@
}

/// Text of the first child of `e` tagged `{gpx_ns()}name`.
pub open spec fn child_text(e: ElementModel, name: Seq<char>) -> Option<Seq<char>> {
    match first_tagged_child(e.children, gpx_ns(), name) {
        Some(j) => Some(e.children[j].text),
        None => None,
    }
}

/// The `time` of track point `p` holds a text that is no UTC time.
pub open spec fn has_invalid_time(p: ElementModel) -> bool {
    child_text(p, "time"@) matches Some(t) && utc_time_of(t) is None
}

/// The point that the track point element `p` describes.
pub open spec fn point_model(p: ElementModel) -> PointModel {
    PointModel {
        lat: attr_value(p.attrs, "lat"@),
        lon: attr_value(p.attrs, "lon"@),
        ele: child_text(p, "ele"@),
        utc: match child_text(p, "time"@) {
            Some(t) => match utc_time_of(t) {
                Some(st) => Some(Timestamp { secs: st.0, nanos: st.1 }),
                None => None,
            },
            None => None,
        },
    }
}

/// The first position at `i` or later among the track points `pts` whose
/// time is invalid.
pub open spec fn first_invalid_time_from(pts: Seq<ElementModel>, i: int) -> Option<int>
    decreases pts.len() - i,
{
    if i < 0 || i >= pts.len() {
        None
    } else if has_invalid_time(pts[i]) {
        Some(i)
    } else {
        first_invalid_time_from(pts, i + 1)
    }
}

/// The track segment of a document: the first `trkseg` of the first `trk`
/// of the document element `root`.
pub open spec fn track_segment(root: ElementModel) -> Result<ElementModel, GpxError> {
    match first_tagged_child(root.children, gpx_ns(), "trk"@) {
        None => Err(GpxError::MissingTrack),
        Some(trk) => match first_tagged_child(root.children[trk].children, gpx_ns(), "trkseg"@) {
            None => Err(GpxError::MissingSegment),
            Some(seg) => Ok(root.children[trk].children[seg]),
        },
    }
}

/// The `trkpt` children of the segment `seg`, in document order.
pub open spec fn track_points(seg: ElementModel) -> Seq<ElementModel> {
    let idx = tagged_children(seg.children, gpx_ns(), "trkpt"@);
    Seq::new(idx.len(), |i: int| seg.children[idx[i]])
}

/// The points of a document, or why there are none.
pub open spec fn gpx_points(root: ElementModel) -> Result<Seq<PointModel>, GpxError> {
    match track_segment(root) {
        Err(e) => Err(e),
        Ok(seg) => {
            let pts = track_points(seg);
            match first_invalid_time_from(pts, 0) {
                Some(i) => Err(GpxError::InvalidTime { point: i as usize }),
                None => Ok(Seq::new(pts.len(), |i: int| point_model(pts[i]))),
            }
        },
    }
}

/// The text `text` is a GPX track that can be read: well-formed XML with a
/// track segment whose points' times are all UTC times.
pub open spec fn gpx_readable(text: Seq<char>) -> bool {
    xml_tree(text) matches Some(root) && gpx_points(root) is Ok
}

/// The result `res` of reading a document whose document element is `root`.
pub open spec fn points_match(res: Result<Vec<Point>, GpxError>, root: ElementModel) -> bool {
    match gpx_points(root) {
        Ok(ps) => res matches Ok(v) && v.deep_view() == ps,
        Err(e) => res == Err::<Vec<Point>, GpxError>(e),
    }
}

/// Strictly increasing positions within `children` are no more than the
/// children.
proof fn lemma_indices_fewer(children: Seq<ElementModel>, idx: Seq<int>)
    requires
        forall|k: int| 0 <= k < idx.len() ==> 0 <= #[trigger] idx[k] < children.len(),
        forall|a: int, b: int| 0 <= a < b < idx.len() ==> #[trigger] idx[a] < #[trigger] idx[b],
    ensures
        idx.len() <= children.len(),
    decreases idx.len(),
{
    if idx.len() > 0 {
        let last = idx[idx.len() - 1];
        let rest = idx.drop_last();
        assert forall|k: int| 0 <= k < rest.len() implies 0 <= #[trigger] rest[k] < last by {
            assert(idx[k] < idx[idx.len() - 1]);
        }
        lemma_indices_fewer(children.take(last), rest);
    }
}

/// No track point at `i` or later has an invalid time exactly where
/// `first_invalid_time_from` finds none.
proof fn lemma_no_invalid_time(pts: Seq<ElementModel>, i: int)
    requires
        0 <= i,
    ensures
        first_invalid_time_from(pts, i) is None <==> forall|k: int|
            i <= k < pts.len() ==> !has_invalid_time(#[trigger] pts[k]),
        first_invalid_time_from(pts, i) matches Some(k) ==> i <= k < pts.len() && has_invalid_time(
            pts[k],
        ) && forall|m: int| i <= m < k ==> !has_invalid_time(#[trigger] pts[m]),
    decreases pts.len() - i,
{
    if i < pts.len() {
        lemma_no_invalid_time(pts, i + 1);
    }
}

/// Law: reading fails for want of a track exactly where the document
/// element has no `{gpx}trk` child at any position; where it has one, a
/// missing segment is reported exactly where the first such child has no
/// `{gpx}trkseg` child.
pub proof fn lemma_track_anywhere(root: ElementModel)
    ensures
        (gpx_points(root) == Err::<Seq<PointModel>, GpxError>(GpxError::MissingTrack)) <==> (forall|
            j: int,
        | !is_tagged(root.children, gpx_ns(), "trk"@, j)),
        forall|j: int|
            is_tagged(root.children, gpx_ns(), "trk"@, j) && (forall|k: int|
                0 <= k < j ==> !is_tagged(root.children, gpx_ns(), "trk"@, k)) ==> ((gpx_points(root)
                == Err::<Seq<PointModel>, GpxError>(GpxError::MissingSegment)) <==> (forall|s: int|
                !is_tagged(root.children[j].children, gpx_ns(), "trkseg"@, s))),
{
    lemma_first_tagged_child(root.children, gpx_ns(), "trk"@);
    match first_tagged_child(root.children, gpx_ns(), "trk"@) {
        Some(t) => {
            lemma_first_tagged_child(root.children[t].children, gpx_ns(), "trkseg"@);
            assert forall|j: int|
                is_tagged(root.children, gpx_ns(), "trk"@, j) && (forall|k: int|
                    0 <= k < j ==> !is_tagged(root.children, gpx_ns(), "trk"@, k)) implies j == t by {
                if j < t {
                    assert(!is_tagged(root.children, gpx_ns(), "trk"@, j));
                } else if j > t {
                    assert(!is_tagged(root.children, gpx_ns(), "trk"@, t));
                }
            }
        },
        None => {},
    }
}

/// Law: what a successful read gives. The points come from the `{gpx}trkpt`
/// children, in order, of the first `{gpx}trkseg` of the first `{gpx}trk`
/// of the document element, wherever those stand among their siblings. Of
/// each, `lat` and `lon` are its attributes, `ele` the text of its first
/// `{gpx}ele` child, and `utc` the UTC time of the text of its first
/// `{gpx}time` child wherever that child stands (nothing where it has none).
pub proof fn lemma_points_of_first_segment(root: ElementModel, ps: Seq<PointModel>)
    requires
        gpx_points(root) == Ok::<Seq<PointModel>, GpxError>(ps),
    ensures
        first_tagged_child(root.children, gpx_ns(), "trk"@) matches Some(t) && first_tagged_child(
            root.children[t].children,
            gpx_ns(),
            "trkseg"@,
        ) matches Some(s) && ({
            let seg = root.children[t].children[s];
            let idx = tagged_children(seg.children, gpx_ns(), "trkpt"@);
            &&& ps.len() == idx.len()
            &&& forall|i: int|
                0 <= i < ps.len() ==> {
                    let pt = seg.children[idx[i]];
                    &&& (#[trigger] ps[i]).lat == attr_value(pt.attrs, "lat"@)
                    &&& ps[i].lon == attr_value(pt.attrs, "lon"@)
                    &&& ps[i].ele == match first_tagged_child(pt.children, gpx_ns(), "ele"@) {
                        Some(k) => Some(pt.children[k].text),
                        None => None,
                    }
                    &&& ps[i].utc == match first_tagged_child(pt.children, gpx_ns(), "time"@) {
                        Some(k) => match utc_time_of(pt.children[k].text) {
                            Some(st) => Some(Timestamp { secs: st.0, nanos: st.1 }),
                            None => None,
                        },
                        None => None,
                    }
                    &&& first_tagged_child(pt.children, gpx_ns(), "time"@) matches Some(k)
                        ==> utc_time_of(pt.children[k].text) is Some
                }
        }),
{
    let seg = track_segment(root)->Ok_0;
    let pts = track_points(seg);
    lemma_no_invalid_time(pts, 0);
    assert forall|i: int| 0 <= i < ps.len() implies !has_invalid_time(pts[i]) by {
        assert(!has_invalid_time(pts[i]));
    }
}

/// Law: an unreadable time is reported at the first track point, in
/// document order, whose first `{gpx}time` child holds no UTC time (for a
/// segment with no more children than memory can hold).
pub proof fn lemma_invalid_time_is_first(root: ElementModel, p: usize)
    requires
        gpx_points(root) == Err::<Seq<PointModel>, GpxError>(GpxError::InvalidTime { point: p }),
        first_tagged_child(root.children, gpx_ns(), "trk"@) matches Some(t) && first_tagged_child(
            root.children[t].children,
            gpx_ns(),
            "trkseg"@,
        ) matches Some(s) ==> root.children[t].children[s].children.len() <= usize::MAX,
    ensures
        first_tagged_child(root.children, gpx_ns(), "trk"@) matches Some(t) && first_tagged_child(
            root.children[t].children,
            gpx_ns(),
            "trkseg"@,
        ) matches Some(s) && ({
            let seg = root.children[t].children[s];
            let idx = tagged_children(seg.children, gpx_ns(), "trkpt"@);
            &&& p < idx.len()
            &&& first_tagged_child(seg.children[idx[p as int]].children, gpx_ns(), "time"@) matches Some(
                k,
            ) && utc_time_of(seg.children[idx[p as int]].children[k].text) is None
            &&& forall|i: int|
                0 <= i < p ==> !(first_tagged_child(
                    (#[trigger] seg.children[idx[i]]).children,
                    gpx_ns(),
                    "time"@,
                ) matches Some(k) && utc_time_of(seg.children[idx[i]].children[k].text) is None)
        }),
{
    let seg = track_segment(root)->Ok_0;
    let pts = track_points(seg);
    lemma_no_invalid_time(pts, 0);
    let k = first_invalid_time_from(pts, 0)->0;
    assert(0 <= k < pts.len());
    lemma_tagged_children(seg.children, gpx_ns(), "trkpt"@);
    assert(pts.len() <= seg.children.len()) by {
        lemma_indices_fewer(seg.children, tagged_children(seg.children, gpx_ns(), "trkpt"@));
    }
    assert(p as int == k);
    let idx = tagged_children(seg.children, gpx_ns(), "trkpt"@);
    assert(pts[k] == seg.children[idx[k]]);
    assert forall|i: int| 0 <= i < p implies !has_invalid_time(#[trigger] seg.children[idx[i]]) by {
        assert(pts[i] == seg.children[idx[i]]);
    }
}

/// Law: a document whose first track has a segment and each of whose track
/// points has no `{gpx}time` child or a first one that holds a UTC time is
/// read without error.
pub proof fn lemma_readable_track_is_read(root: ElementModel)
    requires
        first_tagged_child(root.children, gpx_ns(), "trk"@) matches Some(t) && first_tagged_child(
            root.children[t].children,
            gpx_ns(),
            "trkseg"@,
        ) matches Some(s) && ({
            let seg = root.children[t].children[s];
            let idx = tagged_children(seg.children, gpx_ns(), "trkpt"@);
            forall|i: int|
                0 <= i < idx.len() ==> (first_tagged_child(
                    (#[trigger] seg.children[idx[i]]).children,
                    gpx_ns(),
                    "time"@,
                ) matches Some(k) ==> utc_time_of(seg.children[idx[i]].children[k].text) is Some)
        }),
    ensures
        gpx_points(root) is Ok,
{
    let seg = track_segment(root)->Ok_0;
    let pts = track_points(seg);
    lemma_no_invalid_time(pts, 0);
    let idx = tagged_children(seg.children, gpx_ns(), "trkpt"@);
    assert forall|k: int| 0 <= k < pts.len() implies !has_invalid_time(#[trigger] pts[k]) by {
        assert(pts[k] == seg.children[idx[k]]);
    }
}

fn child_text_of(e: &XmlElement, ns: &String, name: &String) -> (res: Option<String>)
    ensures
        res.deep_view() == match first_tagged_child(e.deep_view().children, ns@, name@) {
            Some(j) => Some(e.deep_view().children[j].text),
            None => None,
        },
{
    match find_child(e, ns, name) {
        Some(j) => {
            assert(e.deep_view().children[j as int] == element_view(e.children@[j as int]));
            Some(e.children[j].text.clone())
        },
        None => None,
    }
}

/// The points of the document whose document element is `root` (see the
/// module's description).
pub fn points_from_tree(root: &XmlElement) -> (res: Result<Vec<Point>, GpxError>)
    ensures
        points_match(res, root.deep_view()),
{
    let ghost r = root.deep_view();
    let ns = String::from_str("http://www.topografix.com/GPX/1/1");
    let trk = match find_child(root, &ns, &String::from_str("trk")) {
        Some(t) => t,
        None => return Err(GpxError::MissingTrack),
    };
    let track = &root.children[trk];
    let seg = match find_child(track, &ns, &String::from_str("trkseg")) {
        Some(s) => s,
        None => return Err(GpxError::MissingSegment),
    };
    let segment = &track.children[seg];
    let pts = find_children(segment, &ns, &String::from_str("trkpt"));
    let ghost sm = segment.deep_view();
    let ghost ptm = track_points(sm);
    assert(track_segment(r) == Ok::<ElementModel, GpxError>(sm));
    let lat = String::from_str("lat");
    let lon = String::from_str("lon");
    let ele = String::from_str("ele");
    let time = String::from_str("time");
    let mut points: Vec<Point> = Vec::new();
    for i in 0..pts.len()
        invariant
            r == root.deep_view(),
            sm == segment.deep_view(),
            ptm == track_points(sm),
            track_segment(r) == Ok::<ElementModel, GpxError>(sm),
            ns@ == gpx_ns(),
            lat@ == "lat"@,
            lon@ == "lon"@,
            ele@ == "ele"@,
            time@ == "time"@,
            pts@.len() == ptm.len(),
            forall|k: int|
                0 <= k < pts@.len() ==> #[trigger] pts@[k] < segment.children@.len()
                    && segment.children@[pts@[k] as int].deep_view() == ptm[k],
            points@.len() == i,
            forall|k: int| 0 <= k < i ==> #[trigger] points@[k].deep_view() == point_model(ptm[k]),
            first_invalid_time_from(ptm, 0) == first_invalid_time_from(ptm, i as int),
    {
        let p = &segment.children[pts[i]];
        let utc = match child_text_of(p, &ns, &time) {
            Some(t) => match parse_utc(t.as_str()) {
                Some(ts) => Some(ts),
                None => {
                    assert(has_invalid_time(ptm[i as int]));
                    assert(first_invalid_time_from(ptm, i as int) == Some(i as int));
                    return Err(GpxError::InvalidTime { point: i });
                },
            },
            None => None,
        };
        let point = Point {
            lat: get_attr(p, &lat),
            lon: get_attr(p, &lon),
            ele: child_text_of(p, &ns, &ele),
            utc,
        };
        points.push(point);
    }
    assert(points.deep_view() =~= Seq::new(ptm.len(), |k: int| point_model(ptm[k])));
    Ok(points)
}

/// Reads the track points of the GPX text `gpx_data`, which must be a
/// readable track (see `try_parse_gpx` for any text).
pub fn parse_gpx(gpx_data: &String) -> (res: Result<Vec<Point>, GpxError>)
    requires
        gpx_readable(gpx_data@),
    ensures
        res matches Ok(v) && gpx_points(xml_tree(gpx_data@)->0) == Ok::<Seq<PointModel>, GpxError>(
            v.deep_view(),
        ),
{
    match read_tree(gpx_data.as_str()) {
        Ok(root) => points_from_tree(&root),
        Err(_) => Err(GpxError::InvalidXml),
    }
}

/// Reads the track points of any text: the points where `gpx_data` is a
/// readable track, else why it is none.
pub fn try_parse_gpx(gpx_data: &String) -> (res: Result<Vec<Point>, GpxError>)
    ensures
        match xml_tree(gpx_data@) {
            None => res == Err::<Vec<Point>, GpxError>(GpxError::InvalidXml),
            Some(root) => points_match(res, root),
        },
{
    match read_tree(gpx_data.as_str()) {
        Err(_) => Err(GpxError::InvalidXml),
        Ok(root) => match points_from_tree(&root) {
            Err(e) => Err(e),
            Ok(_) => parse_gpx(gpx_data),
        },
    }
}

} // verus!
