# frienduro

Tools for timing enduro events: riders upload GPX tracks, segments of an
event are cut out of a reference track, and each participation is timed
segment by segment in a PostgreSQL/PostGIS database.

- `src/` is the verified library:
  - `xml`: an XML document as a tree of elements read with elementtree, and
    the child and attribute lookups on it;
  - `gpx`: the track points of a GPX 1.1 document;
  - `time`: UTC instants read with chrono, their millisecond count, and the
    times of a track's points from its first point;
  - `track`: GPX documents read with the gpx crate, and the times of a
    participation's waypoints;
  - `split`: cutting a track into equal pieces with gaps between them;
  - `tally`: the tally of matched segments and their total time.
- `app/` holds the command-line tools and the web service (`frienduro TOOL
  [options]`), the database queries, and the floating-point geometry.
- `tests/` runs the library on concrete documents and values.
