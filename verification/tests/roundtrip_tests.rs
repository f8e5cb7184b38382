//! Whole-tile conversions, decoded back with geozero's MVT reader (a
//! prost-generated decoder of the vector-tile schema) and compared against
//! geozero's own encoder byte for byte.

use geozero::ToGeo;
use geozero::mvt::Message;
use geozero::mvt::Tile as RefTile;
use geozero::mvt::tile as ref_tile;

use wkb2mvt::build_tile;
use wkb2mvt::geom::TileGeometry;
use wkb2mvt::geom::TilePoint;
use wkb2mvt::layer::MvtError;
use wkb2mvt::layer::PropValue;

/// WKB bytes (little endian) for a two-dimensional point.
fn wkb_point(x: f64, y: f64) -> Vec<u8> {
    let mut b = vec![0x01u8, 0x01, 0x00, 0x00, 0x00];
    b.extend_from_slice(&x.to_le_bytes());
    b.extend_from_slice(&y.to_le_bytes());
    b
}

/// The projection of one source coordinate pair onto the tile grid.
fn project(x: f64, y: f64, bbox: [f64; 4], extent: u32) -> TilePoint {
    let [left, bottom, right, top] = bbox;
    let tx = ((x - left) / (right - left) * extent as f64).round();
    let ty = ((top - y) / (top - bottom) * extent as f64).round();
    TilePoint { x: tx as i32, y: ty as i32 }
}

#[test]
fn point_scenario_through_wkb() {
    // POINT(490 6262), bbox chosen so the grid is 4096 wide and the point
    // sits on its top edge.
    let wkb = wkb_point(490.0, 6262.0);
    let bbox = [0.0, 2166.0, 4096.0, 6262.0];
    let extent = 4096u32;
    let geo = geozero::wkb::Ewkb(wkb).to_geo().unwrap();
    let geometry = match geo {
        geo_types::Geometry::Point(p) => {
            TileGeometry::Point(project(p.x(), p.y(), bbox, extent))
        },
        _ => panic!("expected a point"),
    };
    let properties = vec![
        (String::from("hello"), PropValue::Str(String::from("again"))),
        (String::from("count"), PropValue::Int(2)),
    ];
    let buf = build_tile(&geometry, extent, &properties).unwrap();

    let decoded = RefTile::decode(buf.as_slice()).unwrap();
    assert_eq!(decoded.layers.len(), 1);
    let layer = &decoded.layers[0];
    assert_eq!(layer.version, 2);
    assert_eq!(layer.name, "layer");
    assert_eq!(layer.extent, Some(4096));
    assert_eq!(layer.keys, vec!["hello", "count"]);
    assert_eq!(layer.values.len(), 2);
    assert_eq!(layer.values[0].string_value.as_deref(), Some("again"));
    assert_eq!(layer.values[1].int_value, Some(2));
    assert_eq!(layer.features.len(), 1);
    // One feature: id 1, tags into the tables above, a Point type tag, and
    // a MoveTo with the zig-zag encoded projected deltas from the origin.
    let mut expected = ref_tile::Feature::default();
    expected.id = Some(1);
    expected.tags = vec![0, 0, 1, 1];
    expected.set_type(ref_tile::GeomType::Point);
    expected.geometry = vec![9, 980, 0];
    assert_eq!(layer.features[0], expected);
}

#[test]
fn output_matches_reference_encoder_byte_for_byte() {
    let geometry = TileGeometry::Point(TilePoint { x: 245, y: 3131 });
    let properties = vec![
        (String::from("hello"), PropValue::Str(String::from("again"))),
        (String::from("count"), PropValue::Int(2)),
        (String::from("flag"), PropValue::Bool(true)),
        (String::from("ratio"), PropValue::Double(1.23f64.to_bits())),
    ];
    let buf = build_tile(&geometry, 4096, &properties).unwrap();

    let mut ref_layer = ref_tile::Layer {
        version: 2,
        ..Default::default()
    };
    ref_layer.name = String::from("layer");
    ref_layer.extent = Some(4096);
    let mut ref_feature = ref_tile::Feature::default();
    ref_feature.id = Some(1);
    ref_feature.set_type(ref_tile::GeomType::Point);
    ref_feature.geometry = vec![9, 490, 6262];
    ref_feature.tags = vec![0, 0, 1, 1, 2, 2, 3, 3];
    ref_layer.keys = vec![
        String::from("hello"),
        String::from("count"),
        String::from("flag"),
        String::from("ratio"),
    ];
    ref_layer.values = vec![
        geozero::mvt::TileValue::Str(String::from("again")).into(),
        geozero::mvt::TileValue::Int(2).into(),
        geozero::mvt::TileValue::Bool(true).into(),
        geozero::mvt::TileValue::Double(1.23).into(),
    ];
    let mut ref_mvt = RefTile::default();
    ref_layer.features.push(ref_feature);
    ref_mvt.layers.push(ref_layer);

    assert_eq!(buf, ref_mvt.encode_to_vec());
}

#[test]
fn round_trip_preserves_counts_and_attributes() {
    let geometry = TileGeometry::Polygon(vec![vec![
        TilePoint { x: 3, y: 6 },
        TilePoint { x: 8, y: 12 },
        TilePoint { x: 20, y: 34 },
        TilePoint { x: 3, y: 6 },
    ]]);
    let properties = vec![
        (String::from("name"), PropValue::Str(String::from("parcel"))),
        (String::from("area"), PropValue::Double(12.5f64.to_bits())),
        (String::from("kind"), PropValue::Str(String::from("parcel"))),
        (String::from("neg"), PropValue::Int(-40)),
    ];
    let buf = build_tile(&geometry, 4096, &properties).unwrap();

    let decoded = RefTile::decode(buf.as_slice()).unwrap();
    assert_eq!(decoded.layers.len(), 1);
    let layer = &decoded.layers[0];
    assert_eq!(layer.features.len(), 1);
    assert_eq!(layer.keys, vec!["name", "area", "kind", "neg"]);
    // "parcel" is interned once; the two string keys share value index 0.
    assert_eq!(layer.values.len(), 3);
    assert_eq!(layer.values[0].string_value.as_deref(), Some("parcel"));
    assert_eq!(layer.values[1].double_value, Some(12.5));
    assert_eq!(layer.values[2].int_value, Some(-40));
    assert_eq!(layer.features[0].tags, vec![0, 0, 1, 1, 2, 0, 3, 2]);
    assert_eq!(
        layer.features[0].geometry,
        vec![9, 6, 12, 18, 10, 12, 24, 44, 15]
    );
}

#[test]
fn identical_inputs_give_identical_buffers() {
    let make = || {
        let geometry = TileGeometry::LineString(vec![
            TilePoint { x: 2, y: 2 },
            TilePoint { x: 2, y: 10 },
            TilePoint { x: 10, y: 10 },
        ]);
        let properties = vec![
            (String::from("hello"), PropValue::Str(String::from("world"))),
            (String::from("n"), PropValue::Double(0.5f64.to_bits())),
        ];
        build_tile(&geometry, 256, &properties).unwrap()
    };
    assert_eq!(make(), make());
}

#[test]
fn unsupported_property_aborts_conversion() {
    let geometry = TileGeometry::Point(TilePoint { x: 1, y: 1 });
    let properties = vec![
        (String::from("ok"), PropValue::Bool(false)),
        (String::from("bad"), PropValue::Null),
    ];
    assert_eq!(
        build_tile(&geometry, 4096, &properties),
        Err(MvtError::UnsupportedValueType)
    );
    let properties = vec![(String::from("bad"), PropValue::Array)];
    assert_eq!(
        build_tile(&geometry, 4096, &properties),
        Err(MvtError::UnsupportedValueType)
    );
}

#[test]
fn degenerate_ring_still_yields_a_feature() {
    // The collapsed ring is dropped from the command stream; the feature
    // itself survives with an empty geometry rather than failing the call.
    let geometry = TileGeometry::Polygon(vec![vec![
        TilePoint { x: 0, y: 0 },
        TilePoint { x: 1, y: 1 },
        TilePoint { x: 0, y: 0 },
    ]]);
    let buf = build_tile(&geometry, 4096, &Vec::new()).unwrap();
    let decoded = RefTile::decode(buf.as_slice()).unwrap();
    assert_eq!(decoded.layers.len(), 1);
    assert_eq!(decoded.layers[0].features.len(), 1);
    assert_eq!(decoded.layers[0].features[0].geometry, Vec::<u32>::new());
}

#[test]
fn projection_boundary_corners() {
    // (left, top) lands on grid (0, 0); (right, bottom) on (extent, extent).
    let bbox = [10.0, -20.0, 522.0, 236.0];
    let extent = 4096u32;
    let tl = project(10.0, 236.0, bbox, extent);
    assert_eq!((tl.x, tl.y), (0, 0));
    let br = project(522.0, -20.0, bbox, extent);
    assert_eq!((br.x, br.y), (4096, 4096));
}
