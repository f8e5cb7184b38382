//! Conversion of geometry into Mapbox Vector Tile (MVT) layers.
//!
//! The library takes a geometry already projected onto the tile's integer
//! grid, together with an extent and a set of feature properties, and
//! produces the serialized tile buffer: geometry commands with zig-zag
//! delta encoding, per-layer interned key/value tables, and the tile's
//! protocol-buffer wire form.

pub mod geom;
pub mod layer;
pub mod proto;

use vstd::prelude::*;

use crate::geom::TileGeometry;
use crate::geom::geometry_commands;
use crate::geom::geometry_type;
use crate::geom::geometry_wf;
use crate::geom::spec_geometry_type;
use crate::layer::Feature;
use crate::layer::Layer;
use crate::layer::MvtError;
use crate::layer::PropValue;
use crate::layer::Tile;
use crate::layer::TileValue;
use crate::layer::add_feature_attribute;
use crate::layer::intern_key;
use crate::layer::intern_value;
use crate::layer::interned_key_index;
use crate::layer::interned_value_index;
use crate::layer::tile_value_view;
use crate::layer::to_tile_value;
use crate::proto::encode_tile;
use crate::proto::feature_fields;
use crate::proto::layer_fields;
use crate::proto::len_delim;
use vstd::string::StringExecFns;

verus! {

/// Whether a property value lies in the supported double/int/bool/string
/// union.
pub open spec fn prop_supported(p: PropValue) -> bool {
    tile_value_view(p) is Some
}

/// Whether every property value of a property list is supported.
pub open spec fn props_supported(ps: Seq<(String, PropValue)>) -> bool {
    forall|i: int| 0 <= i < ps.len() ==> prop_supported(#[trigger] ps[i].1)
}

/// The key table, value table and tag list that interning a property list
/// leaves behind, in order. An unsupported value (which aborts the real
/// conversion) interns nothing.
pub open spec fn fold_attrs(
    keys: Seq<String>,
    values: Seq<TileValue>,
    tags: Seq<u32>,
    ps: Seq<(String, PropValue)>,
) -> (Seq<String>, Seq<TileValue>, Seq<u32>)
    decreases ps.len(),
{
    if ps.len() == 0 {
        (keys, values, tags)
    } else {
        match tile_value_view(ps[0].1) {
            Some(v) => fold_attrs(
                intern_key(keys, ps[0].0),
                intern_value(values, v),
                tags + seq![
                    interned_key_index(keys, ps[0].0@) as u32,
                    interned_value_index(values, v) as u32,
                ],
                ps.skip(1),
            ),
            None => fold_attrs(keys, values, tags, ps.skip(1)),
        }
    }
}

/// The tile buffer a conversion produces: one layer named "layer" at
/// version 2 with the given extent, holding one feature with id 1, the
/// geometry's command stream and type, and the interned attributes.
pub open spec fn built_tile_bytes(
    g: TileGeometry,
    extent: u32,
    ps: Seq<(String, PropValue)>,
) -> Seq<u8> {
    let folded = fold_attrs(Seq::empty(), Seq::empty(), Seq::empty(), ps);
    len_delim(
        3,
        layer_fields(
            2,
            "layer"@,
            len_delim(
                2,
                feature_fields(
                    Some(1u64),
                    folded.2,
                    spec_geometry_type(g),
                    geometry_commands(g),
                ),
            ),
            folded.0,
            folded.1,
            Some(extent),
        ),
    )
}

/// Determinism of the conversion: the output buffer is a function of the
/// geometry, the extent and the property list (in its iteration order)
/// alone, so equal inputs yield byte-identical output.
pub proof fn lemma_conversion_deterministic(
    g1: TileGeometry,
    g2: TileGeometry,
    extent1: u32,
    extent2: u32,
    ps1: Seq<(String, PropValue)>,
    ps2: Seq<(String, PropValue)>,
)
    requires
        g1 == g2,
        extent1 == extent2,
        ps1 == ps2,
    ensures
        built_tile_bytes(g1, extent1, ps1) == built_tile_bytes(g2, extent2, ps2),
{
}

/// Attribute preservation: when every property is supported, interning a
/// property list appends exactly one tag pair per property, only appends
/// to the tables it was given, and each tag pair leads back to the
/// property it came from — the key at the pair's key index reads back as
/// the property's key, and the value at its value index as the property's
/// value. A reader of the tile that follows the tag pairs therefore
/// reproduces the supplied attribute pairs.
pub proof fn lemma_fold_attrs_reproduces(
    keys: Seq<String>,
    values: Seq<TileValue>,
    tags: Seq<u32>,
    ps: Seq<(String, PropValue)>,
)
    requires
        props_supported(ps),
        keys.len() + ps.len() < 0xFFFF_FFFF,
        values.len() + ps.len() < 0xFFFF_FFFF,
    ensures
        ({
            let r = fold_attrs(keys, values, tags, ps);
            &&& r.2.len() == tags.len() + 2 * ps.len()
            &&& keys.len() <= r.0.len() <= keys.len() + ps.len()
            &&& values.len() <= r.1.len() <= values.len() + ps.len()
            &&& (forall|j: int| 0 <= j < keys.len() ==> r.0[j] == keys[j])
            &&& (forall|j: int| 0 <= j < values.len() ==> r.1[j] == values[j])
            &&& (forall|j: int| 0 <= j < tags.len() ==> r.2[j] == tags[j])
            &&& (forall|i: int|
                0 <= i < ps.len() ==> {
                    let ki = #[trigger] r.2[tags.len() + 2 * i] as int;
                    let vi = r.2[tags.len() + 2 * i + 1] as int;
                    &&& 0 <= ki < r.0.len()
                    &&& 0 <= vi < r.1.len()
                    &&& r.0[ki]@ == ps[i].0@
                    &&& (tile_value_view(ps[i].1) matches Some(v) && crate::layer::tv_eq(
                        r.1[vi],
                        v,
                    ))
                })
        }),
    decreases ps.len(),
{
    if ps.len() > 0 {
        assert(prop_supported(ps[0].1));
        match tile_value_view(ps[0].1) {
            Some(v) => {
                let k = ps[0].0;
                crate::layer::lemma_key_index(keys, k@);
                crate::layer::lemma_value_index(values, v);
                let keys2 = intern_key(keys, k);
                let values2 = intern_value(values, v);
                let ik = interned_key_index(keys, k@);
                let iv = interned_value_index(values, v);
                let tags2 = tags + seq![ik as u32, iv as u32];
                assert forall|i: int| 0 <= i < ps.skip(1).len() implies prop_supported(
                    #[trigger] ps.skip(1)[i].1,
                ) by {
                    assert(ps.skip(1)[i] == ps[i + 1]);
                }
                lemma_fold_attrs_reproduces(keys2, values2, tags2, ps.skip(1));
                let r = fold_attrs(keys, values, tags, ps);
                assert(r == fold_attrs(keys2, values2, tags2, ps.skip(1)));
                assert(0 <= ik < keys2.len() && keys2[ik]@ == k@);
                assert(0 <= iv < values2.len() && crate::layer::tv_eq(values2[iv], v));
                assert forall|i: int| 0 <= i < ps.len() implies {
                    let ki = #[trigger] r.2[tags.len() + 2 * i] as int;
                    let vi = r.2[tags.len() + 2 * i + 1] as int;
                    &&& 0 <= ki < r.0.len()
                    &&& 0 <= vi < r.1.len()
                    &&& r.0[ki]@ == ps[i].0@
                    &&& (tile_value_view(ps[i].1) matches Some(w) && crate::layer::tv_eq(
                        r.1[vi],
                        w,
                    ))
                } by {
                    if i == 0 {
                        assert(r.2[tags.len() + 2 * i] == tags2[tags.len() as int]);
                        assert(r.2[tags.len() + 2 * i + 1] == tags2[tags.len() as int + 1]);
                        assert(tags2[tags.len() as int] == ik as u32);
                        assert(tags2[tags.len() as int + 1] == iv as u32);
                        assert(r.0[ik] == keys2[ik]);
                        assert(r.1[iv] == values2[iv]);
                    } else {
                        assert(ps.skip(1)[i - 1] == ps[i]);
                        assert(tags.len() + 2 * i == tags2.len() + 2 * (i - 1));
                    }
                }
                assert forall|j: int| 0 <= j < keys.len() implies r.0[j] == keys[j] by {
                    assert(keys2[j] == keys[j]);
                }
                assert forall|j: int| 0 <= j < values.len() implies r.1[j] == values[j] by {
                    assert(values2[j] == values[j]);
                }
                assert forall|j: int| 0 <= j < tags.len() implies r.2[j] == tags[j] by {
                    assert(tags2[j] == tags[j]);
                }
            },
            None => {
                assert(false);
            },
        }
    }
}

/// Converts one projected geometry with its feature properties into a
/// serialized single-layer tile buffer.
///
/// The layer is named "layer", carries protocol version 2 and the given
/// extent; the feature carries id 1, the geometry's MVT command stream,
/// and one tag pair per property, interned first-insertion-wins. The call
/// fails with `UnsupportedValueType` — and produces nothing — exactly when
/// some property value lies outside the double/int/bool/string union.
pub fn build_tile(
    geometry: &TileGeometry,
    extent: u32,
    properties: &Vec<(String, PropValue)>,
) -> (r: Result<Vec<u8>, MvtError>)
    requires
        geometry_wf(*geometry),
        properties@.len() < 0xFFFF_FFFF,
    ensures
        match r {
            Ok(buf) => props_supported(properties@) && buf@ == built_tile_bytes(
                *geometry,
                extent,
                properties@,
            ),
            Err(e) => !props_supported(properties@) && e == MvtError::UnsupportedValueType,
        },
{
    let cmds = crate::geom::encode_geometry(geometry);
    let gt = geometry_type(geometry);
    let mut mvt_feature = Feature { id: Some(1), tags: Vec::new(), geom_type: gt, geometry: cmds };
    let mut mvt_layer = Layer {
        version: 2,
        name: String::from_str("layer"),
        features: Vec::new(),
        keys: Vec::new(),
        values: Vec::new(),
        extent: Some(extent),
    };
    let ghost goal = fold_attrs(Seq::empty(), Seq::empty(), Seq::empty(), properties@);
    assert(properties@.skip(0) =~= properties@);
    let mut i: usize = 0;
    while i < properties.len()
        invariant
            0 <= i <= properties@.len(),
            properties@.len() < 0xFFFF_FFFF,
            forall|j: int| 0 <= j < i ==> prop_supported(#[trigger] properties@[j].1),
            mvt_layer.keys@.len() <= i,
            mvt_layer.values@.len() <= i,
            mvt_layer.version == 2,
            mvt_layer.name@ == "layer"@,
            mvt_layer.extent == Some(extent),
            mvt_layer.features@ == Seq::<Feature>::empty(),
            mvt_feature.id == Some(1u64),
            mvt_feature.geom_type == spec_geometry_type(*geometry),
            mvt_feature.geometry@ == geometry_commands(*geometry),
            fold_attrs(mvt_layer.keys@, mvt_layer.values@, mvt_feature.tags@, properties@.skip(i as int))
                == goal,
            goal == fold_attrs(Seq::empty(), Seq::empty(), Seq::empty(), properties@),
        decreases properties@.len() - i,
    {
        let value = match to_tile_value(&properties[i].1) {
            Ok(v) => v,
            Err(e) => {
                return Err(e);
            },
        };
        let key = properties[i].0.clone();
        proof {
            assert(properties@.skip(i as int)[0] == properties@[i as int]);
            assert(properties@.skip(i as int).skip(1) =~= properties@.skip(i as int + 1));
        }
        add_feature_attribute(&mut mvt_layer, &mut mvt_feature, key, value);
        i = i + 1;
    }
    proof {
        assert(properties@.skip(properties@.len() as int) =~= Seq::<(String, PropValue)>::empty());
    }
    let ghost final_feature = mvt_feature;
    mvt_layer.features.push(mvt_feature);
    let mut tile_layers: Vec<Layer> = Vec::new();
    let ghost final_layer = mvt_layer;
    tile_layers.push(mvt_layer);
    let mvt_tile = Tile { layers: tile_layers };
    let buf = encode_tile(&mvt_tile);
    proof {
        assert(mvt_tile.layers@ =~= seq![final_layer]);
        assert(seq![final_layer].drop_last() =~= Seq::<Layer>::empty());
        assert(final_layer.features@ =~= seq![final_feature]);
        assert(seq![final_feature].drop_last() =~= Seq::<Feature>::empty());
        assert(crate::proto::features_bytes(Seq::<Feature>::empty()) == Seq::<u8>::empty());
        assert(crate::proto::layers_bytes(Seq::<Layer>::empty()) == Seq::<u8>::empty());
        assert(crate::proto::features_bytes(seq![final_feature]) =~= len_delim(
            2,
            crate::proto::feature_bytes(final_feature),
        ));
        assert(crate::proto::feature_bytes(final_feature) == feature_fields(
            Some(1u64),
            final_feature.tags@,
            spec_geometry_type(*geometry),
            geometry_commands(*geometry),
        ));
        assert(crate::proto::layer_bytes(final_layer) == layer_fields(
            2,
            "layer"@,
            len_delim(
                2,
                feature_fields(
                    Some(1u64),
                    final_feature.tags@,
                    spec_geometry_type(*geometry),
                    geometry_commands(*geometry),
                ),
            ),
            final_layer.keys@,
            final_layer.values@,
            Some(extent),
        ));
        assert(buf@ =~= len_delim(3, crate::proto::layer_bytes(final_layer)));
        assert(buf@ =~= built_tile_bytes(*geometry, extent, properties@));
    }
    Ok(buf)
}

} // verus!
