//! Geometry command encoding, checked against the worked examples of the
//! Mapbox Vector Tile specification.

use wkb2mvt::geom::GeomType;
use wkb2mvt::geom::TileGeometry;
use wkb2mvt::geom::TilePoint;
use wkb2mvt::geom::encode_geometry;
use wkb2mvt::geom::geometry_type;
use wkb2mvt::geom::zigzag32;

fn pt(x: i32, y: i32) -> TilePoint {
    TilePoint { x, y }
}

#[test]
fn zigzag_small_values() {
    assert_eq!(zigzag32(0), 0);
    assert_eq!(zigzag32(-1), 1);
    assert_eq!(zigzag32(1), 2);
    assert_eq!(zigzag32(-2), 3);
    assert_eq!(zigzag32(2), 4);
    assert_eq!(zigzag32(25), 50);
    assert_eq!(zigzag32(17), 34);
}

#[test]
fn zigzag_extremes() {
    assert_eq!(zigzag32(i32::MAX), u32::MAX - 1);
    assert_eq!(zigzag32(i32::MIN), u32::MAX);
}

#[test]
fn point_geom() {
    let g = TileGeometry::Point(pt(25, 17));
    assert_eq!(encode_geometry(&g), vec![9, 50, 34]);
    assert_eq!(geometry_type(&g), GeomType::Point);
}

#[test]
fn multipoint_geom() {
    let g = TileGeometry::MultiPoint(vec![pt(5, 7), pt(3, 2)]);
    assert_eq!(encode_geometry(&g), vec![17, 10, 14, 3, 9]);
    assert_eq!(geometry_type(&g), GeomType::Point);
}

#[test]
fn line_geom() {
    let g = TileGeometry::LineString(vec![pt(2, 2), pt(2, 10), pt(10, 10)]);
    assert_eq!(encode_geometry(&g), vec![9, 4, 4, 18, 0, 16, 16, 0]);
    assert_eq!(geometry_type(&g), GeomType::Linestring);
}

#[test]
fn multiline_geom() {
    let g = TileGeometry::MultiLineString(vec![
        vec![pt(2, 2), pt(2, 10), pt(10, 10)],
        vec![pt(1, 1), pt(3, 5)],
    ]);
    assert_eq!(
        encode_geometry(&g),
        vec![9, 4, 4, 18, 0, 16, 16, 0, 9, 17, 17, 10, 4, 8]
    );
    assert_eq!(geometry_type(&g), GeomType::Linestring);
}

#[test]
fn polygon_geom() {
    let g = TileGeometry::Polygon(vec![vec![pt(3, 6), pt(8, 12), pt(20, 34), pt(3, 6)]]);
    assert_eq!(encode_geometry(&g), vec![9, 6, 12, 18, 10, 12, 24, 44, 15]);
    assert_eq!(geometry_type(&g), GeomType::Polygon);
}

#[test]
fn multipolygon_geom() {
    let g = TileGeometry::MultiPolygon(vec![
        vec![vec![pt(0, 0), pt(10, 0), pt(10, 10), pt(0, 10), pt(0, 0)]],
        vec![
            vec![pt(11, 11), pt(20, 11), pt(20, 20), pt(11, 20), pt(11, 11)],
            vec![pt(13, 13), pt(13, 17), pt(17, 17), pt(17, 13), pt(13, 13)],
        ],
    ]);
    assert_eq!(
        encode_geometry(&g),
        vec![
            9, 0, 0, 26, 20, 0, 0, 20, 19, 0, 15, 9, 22, 2, 26, 18, 0, 0, 18, 17, 0, 15, 9, 4,
            13, 26, 0, 8, 8, 0, 0, 7, 15
        ]
    );
    assert_eq!(geometry_type(&g), GeomType::Polygon);
}

#[test]
fn degenerate_ring_dropped() {
    // A ring of fewer than four points yields no commands, not an error.
    let g = TileGeometry::Polygon(vec![vec![pt(3, 6), pt(8, 12), pt(3, 6)]]);
    assert_eq!(encode_geometry(&g), Vec::<u32>::new());
}

#[test]
fn degenerate_ring_among_good_rings() {
    // Only the degenerate ring disappears; the cursor is unaffected by it.
    let g = TileGeometry::Polygon(vec![
        vec![pt(3, 6), pt(8, 12), pt(20, 34), pt(3, 6)],
        vec![pt(1, 1), pt(2, 2), pt(1, 1)],
        vec![pt(3, 6), pt(8, 12), pt(20, 34), pt(3, 6)],
    ]);
    assert_eq!(
        encode_geometry(&g),
        vec![9, 6, 12, 18, 10, 12, 24, 44, 15, 9, 33, 55, 18, 10, 12, 24, 44, 15]
    );
}

#[test]
fn short_line_dropped() {
    let g = TileGeometry::LineString(vec![pt(5, 5)]);
    assert_eq!(encode_geometry(&g), Vec::<u32>::new());
    let g = TileGeometry::MultiLineString(vec![
        vec![pt(9, 9)],
        vec![pt(2, 2), pt(2, 10)],
    ]);
    assert_eq!(encode_geometry(&g), vec![9, 4, 4, 10, 0, 16]);
}
