//! Attribute table deduplication and property value conversion.

use wkb2mvt::geom::GeomType;
use wkb2mvt::layer::Feature;
use wkb2mvt::layer::Layer;
use wkb2mvt::layer::MvtError;
use wkb2mvt::layer::PropValue;
use wkb2mvt::layer::TileValue;
use wkb2mvt::layer::add_feature_attribute;
use wkb2mvt::layer::tile_value_eq;
use wkb2mvt::layer::to_tile_value;

fn empty_layer() -> Layer {
    Layer {
        version: 2,
        name: String::from("points"),
        features: Vec::new(),
        keys: Vec::new(),
        values: Vec::new(),
        extent: Some(4096),
    }
}

fn empty_feature() -> Feature {
    Feature {
        id: Some(1),
        tags: Vec::new(),
        geom_type: GeomType::Point,
        geometry: vec![9, 490, 6262],
    }
}

#[test]
fn interning_assigns_indices_in_first_insertion_order() {
    let mut layer = empty_layer();
    let mut feature = empty_feature();
    add_feature_attribute(
        &mut layer,
        &mut feature,
        String::from("hello"),
        TileValue::Str(String::from("world")),
    );
    add_feature_attribute(
        &mut layer,
        &mut feature,
        String::from("h"),
        TileValue::Str(String::from("world")),
    );
    add_feature_attribute(
        &mut layer,
        &mut feature,
        String::from("count"),
        TileValue::Double(1.23f64.to_bits()),
    );
    assert_eq!(layer.keys, vec!["hello", "h", "count"]);
    assert_eq!(
        layer.values,
        vec![
            TileValue::Str(String::from("world")),
            TileValue::Double(1.23f64.to_bits()),
        ]
    );
    assert_eq!(feature.tags, vec![0, 0, 1, 0, 2, 1]);
}

#[test]
fn duplicate_key_and_value_do_not_grow_tables() {
    let mut layer = empty_layer();
    let mut feature = empty_feature();
    add_feature_attribute(
        &mut layer,
        &mut feature,
        String::from("hello"),
        TileValue::Str(String::from("again")),
    );
    add_feature_attribute(&mut layer, &mut feature, String::from("count"), TileValue::Int(2));
    let keys_before = layer.keys.len();
    let values_before = layer.values.len();
    // A duplicate key with a duplicate value: both tables keep their length
    // and both indices are reused.
    add_feature_attribute(
        &mut layer,
        &mut feature,
        String::from("hello"),
        TileValue::Int(2),
    );
    assert_eq!(layer.keys.len(), keys_before);
    assert_eq!(layer.values.len(), values_before);
    assert_eq!(feature.tags, vec![0, 0, 1, 1, 0, 1]);
}

#[test]
fn second_feature_reuses_layer_tables() {
    let mut layer = empty_layer();
    let mut first = empty_feature();
    add_feature_attribute(
        &mut layer,
        &mut first,
        String::from("hello"),
        TileValue::Str(String::from("world")),
    );
    layer.features.push(first);
    let mut second = empty_feature();
    add_feature_attribute(
        &mut layer,
        &mut second,
        String::from("hello"),
        TileValue::Str(String::from("again")),
    );
    assert_eq!(layer.keys, vec!["hello"]);
    assert_eq!(
        layer.values,
        vec![
            TileValue::Str(String::from("world")),
            TileValue::Str(String::from("again")),
        ]
    );
    assert_eq!(second.tags, vec![0, 1]);
}

#[test]
fn value_equality_is_exact() {
    assert!(tile_value_eq(
        &TileValue::Double(1.23f64.to_bits()),
        &TileValue::Double(1.23f64.to_bits())
    ));
    assert!(!tile_value_eq(
        &TileValue::Double(1.23f64.to_bits()),
        &TileValue::Double(1.24f64.to_bits())
    ));
    assert!(!tile_value_eq(&TileValue::Int(1), &TileValue::Bool(true)));
    assert!(!tile_value_eq(
        &TileValue::Int(2),
        &TileValue::Double(2.0f64.to_bits())
    ));
}

#[test]
fn supported_values_convert_exactly() {
    assert_eq!(
        to_tile_value(&PropValue::Double(2.5f64.to_bits())),
        Ok(TileValue::Double(2.5f64.to_bits()))
    );
    assert_eq!(to_tile_value(&PropValue::Int(-7)), Ok(TileValue::Int(-7)));
    assert_eq!(to_tile_value(&PropValue::Bool(true)), Ok(TileValue::Bool(true)));
    assert_eq!(
        to_tile_value(&PropValue::Str(String::from("again"))),
        Ok(TileValue::Str(String::from("again")))
    );
}

#[test]
fn null_value_is_unsupported() {
    assert_eq!(
        to_tile_value(&PropValue::Null),
        Err(MvtError::UnsupportedValueType)
    );
}

#[test]
fn array_value_is_unsupported() {
    assert_eq!(
        to_tile_value(&PropValue::Array),
        Err(MvtError::UnsupportedValueType)
    );
}
