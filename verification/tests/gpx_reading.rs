use frienduro::gpx::{parse_gpx, points_from_tree, try_parse_gpx, GpxError, Point};
use frienduro::time::Timestamp;
use frienduro::xml::{find_child, find_children, get_attr, read_tree, XmlAttr, XmlElement};

const NS: &str = "http://www.topografix.com/GPX/1/1";

fn sample() -> String {
    String::from(
        r#"<?xml version="1.0" encoding="UTF-8"?>
<gpx version="1.1" creator="test" xmlns="http://www.topografix.com/GPX/1/1">
  <trk>
    <name>Morning ride</name>
    <trkseg>
      <trkpt lat="47.6062" lon="-122.3321"><ele>56.3</ele><time>2019-05-01T10:00:00Z</time></trkpt>
      <trkpt lat="47.6070" lon="-122.3330"><ele>57.1</ele><time>2019-05-01T10:00:05.250Z</time></trkpt>
      <trkpt lon="-122.3340"></trkpt>
    </trkseg>
    <trkseg>
      <trkpt lat="1" lon="2"/>
    </trkseg>
  </trk>
</gpx>"#,
    )
}

fn text(s: &str) -> Option<String> {
    Some(s.to_string())
}

#[test]
fn parse_gpx_reads_points_of_first_segment_in_order() {
    let points = parse_gpx(&sample()).unwrap();
    assert_eq!(points.len(), 3);
    assert_eq!(points[0].lat, text("47.6062"));
    assert_eq!(points[0].lon, text("-122.3321"));
    assert_eq!(points[0].ele, text("56.3"));
    assert_eq!(points[0].utc, Some(Timestamp { secs: 1556704800, nanos: 0 }));
    assert_eq!(points[1].lat, text("47.6070"));
    assert_eq!(points[1].ele, text("57.1"));
    assert_eq!(points[1].utc, Some(Timestamp { secs: 1556704805, nanos: 250_000_000 }));
    assert_eq!(points[2].lat, None);
    assert_eq!(points[2].lon, text("-122.3340"));
    assert_eq!(points[2].ele, None);
    assert_eq!(points[2].utc, None);
}

#[test]
fn parse_gpx_time_with_offset_is_read_as_utc() {
    let doc = sample().replace("2019-05-01T10:00:00Z", "2019-05-01T12:00:00+02:00");
    let points = parse_gpx(&doc).unwrap();
    assert_eq!(points[0].utc, Some(Timestamp { secs: 1556704800, nanos: 0 }));
}

#[test]
fn parse_gpx_rejects_text_that_is_not_xml() {
    assert!(matches!(try_parse_gpx(&String::from("<gpx><trk></gpx>")), Err(GpxError::InvalidXml)));
    assert!(matches!(try_parse_gpx(&String::from("")), Err(GpxError::InvalidXml)));
}

#[test]
fn parse_gpx_needs_a_track_in_the_gpx_namespace() {
    let doc = String::from(r#"<gpx><trk><trkseg><trkpt lat="1" lon="2"/></trkseg></trk></gpx>"#);
    assert!(matches!(try_parse_gpx(&doc), Err(GpxError::MissingTrack)));
}

#[test]
fn parse_gpx_needs_a_segment() {
    let doc = String::from(r#"<gpx xmlns="http://www.topografix.com/GPX/1/1"><trk><name>x</name></trk></gpx>"#);
    assert!(matches!(try_parse_gpx(&doc), Err(GpxError::MissingSegment)));
}

#[test]
fn parse_gpx_reports_first_point_with_bad_time() {
    let doc = sample().replace("2019-05-01T10:00:05.250Z", "yesterday");
    assert!(matches!(try_parse_gpx(&doc), Err(GpxError::InvalidTime { point: 1 })));
}

#[test]
fn parse_gpx_empty_segment_gives_no_points() {
    let doc = String::from(r#"<gpx xmlns="http://www.topografix.com/GPX/1/1"><trk><trkseg></trkseg></trk></gpx>"#);
    let points: Vec<Point> = parse_gpx(&doc).unwrap();
    assert!(points.is_empty());
}

fn element(name: &str, attrs: Vec<XmlAttr>, text: &str, children: Vec<XmlElement>) -> XmlElement {
    XmlElement::new(Some(NS), name, attrs, text, children)
}

fn hand_made_document() -> XmlElement {
    let first = element(
        "trkpt",
        vec![XmlAttr::new(None, "lat", "10.5"), XmlAttr::new(Some("urn:x"), "lon", "9")],
        "",
        vec![element("time", vec![], "1970-01-01T00:00:01Z", vec![])],
    );
    let second = element(
        "trkpt",
        vec![XmlAttr::new(None, "lon", "3")],
        "",
        vec![element("ele", vec![], "100", vec![]), element("ele", vec![], "200", vec![])],
    );
    let segment = element("trkseg", vec![], "", vec![first, second]);
    element("gpx", vec![], "", vec![element("trk", vec![], "", vec![segment])])
}

#[test]
fn points_from_tree_reads_hand_made_document() {
    let points = points_from_tree(&hand_made_document()).unwrap();
    assert_eq!(points.len(), 2);
    assert_eq!(points[0].lat, text("10.5"));
    assert_eq!(points[0].lon, None);
    assert_eq!(points[0].utc, Some(Timestamp { secs: 1, nanos: 0 }));
    assert_eq!(points[1].lon, text("3"));
    assert_eq!(points[1].ele, text("100"));
}

#[test]
fn find_child_is_first_of_find_children() {
    let doc = hand_made_document();
    let second = &doc.children[0].children[0].children[1];
    let ns = NS.to_string();
    let ele = "ele".to_string();
    assert_eq!(find_children(second, &ns, &ele), vec![0, 1]);
    assert_eq!(find_child(second, &ns, &ele), Some(0));
    let first = &doc.children[0].children[0].children[0];
    assert_eq!(find_children(first, &ns, &ele), Vec::<usize>::new());
    assert_eq!(find_child(first, &ns, &ele), None);
    assert_eq!(find_child(second, &"urn:other".to_string(), &ele), None);
}

#[test]
fn get_attr_ignores_namespaced_attributes() {
    let doc = hand_made_document();
    let segment = &doc.children[0].children[0];
    assert_eq!(get_attr(&segment.children[0], &"lat".to_string()), text("10.5"));
    assert_eq!(get_attr(&segment.children[0], &"lon".to_string()), None);
    assert_eq!(get_attr(&segment.children[1], &"lon".to_string()), text("3"));
}

#[test]
fn read_tree_keeps_elements_in_document_order() {
    let tree = read_tree(r#"<a xmlns="urn:t" k="v">hi<b/><c x="1">t</c><b>u</b></a>"#).unwrap();
    assert_eq!(tree.name, "a");
    assert_eq!(tree.ns, Some("urn:t".to_string()));
    assert_eq!(tree.text, "hi");
    assert_eq!(get_attr(&tree, &"k".to_string()), text("v"));
    let names: Vec<&str> = tree.children.iter().map(|c| c.name.as_str()).collect();
    assert_eq!(names, vec!["b", "c", "b"]);
    assert_eq!(tree.children[2].text, "u");
    assert!(read_tree("<a><b></a>").is_err());
}

#[test]
fn try_parse_gpx_gives_points_of_readable_track() {
    let points = try_parse_gpx(&sample()).unwrap();
    assert_eq!(points.len(), 3);
    assert_eq!(points[1].utc, Some(Timestamp { secs: 1556704805, nanos: 250_000_000 }));
}
