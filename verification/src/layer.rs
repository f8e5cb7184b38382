//! Layers, features and the attribute table builder.
//!
//! A layer interns the keys and values of its features' attributes into two
//! ordered tables; each feature carries a flat sequence of alternating
//! (key index, value index) tag pairs into those tables. Interning is
//! first-insertion-wins: a key or value equal to one already in the table
//! reuses the existing index, and the table does not grow.

use vstd::prelude::*;

use crate::geom::GeomType;

verus! {

/// An attribute value of a layer's value table: a tagged union of double,
/// signed integer, boolean and string. A double is carried as the bit
/// pattern of its IEEE 754 binary64 form, so that equality — used for
/// deduplication — is exact.
#[derive(Clone, PartialEq, Debug)]
pub enum TileValue {
    /// IEEE 754 binary64 bit pattern.
    Double(u64),
    Int(i64),
    Bool(bool),
    Str(String),
}

/// A property value as a caller supplies it. `Null` and `Array` stand for
/// inputs outside the supported union; they are rejected, never coerced.
#[derive(Clone, PartialEq, Debug)]
pub enum PropValue {
    /// IEEE 754 binary64 bit pattern.
    Double(u64),
    Int(i64),
    Bool(bool),
    Str(String),
    Null,
    Array,
}

/// The error kinds of a conversion call. A failure aborts the whole call:
/// no partial tile is returned.
#[derive(Clone, Copy, PartialEq, Eq, Structural, Debug)]
pub enum MvtError {
    /// Malformed, truncated or unsupported geometry bytes.
    DecodeError,
    /// A property value outside the supported double/int/bool/string union.
    UnsupportedValueType,
    /// A degenerate or inverted bounding box.
    InvalidBoundingBox,
}

/// One feature of a layer: an optional id, a geometry-type tag, the
/// geometry-command stream, and the tag pairs into the owning layer's
/// tables.
pub struct Feature {
    pub id: Option<u64>,
    pub tags: Vec<u32>,
    pub geom_type: GeomType,
    pub geometry: Vec<u32>,
}

/// One layer of a tile: a name, the protocol version (2), its features,
/// the interned key and value tables, and the grid extent.
pub struct Layer {
    pub version: u32,
    pub name: String,
    pub features: Vec<Feature>,
    pub keys: Vec<String>,
    pub values: Vec<TileValue>,
    pub extent: Option<u32>,
}

/// A tile: an ordered sequence of layers.
pub struct Tile {
    pub layers: Vec<Layer>,
}

/// Exact equality of two attribute values, the relation the value table
/// is deduplicated under. Strings compare by their character sequences;
/// doubles by their bit patterns.
pub open spec fn tv_eq(a: TileValue, b: TileValue) -> bool {
    match (a, b) {
        (TileValue::Double(x), TileValue::Double(y)) => x == y,
        (TileValue::Int(x), TileValue::Int(y)) => x == y,
        (TileValue::Bool(x), TileValue::Bool(y)) => x == y,
        (TileValue::Str(x), TileValue::Str(y)) => x@ == y@,
        _ => false,
    }
}

/// The index of the first key in `keys` equal to `k`, or -1 if none is.
pub open spec fn key_index(keys: Seq<String>, k: Seq<char>) -> int
    decreases keys.len(),
{
    if keys.len() == 0 {
        -1
    } else if keys[0]@ == k {
        0
    } else {
        let r = key_index(keys.skip(1), k);
        if r == -1 {
            -1
        } else {
            r + 1
        }
    }
}

/// The index of the first value in `values` equal to `v`, or -1 if none is.
pub open spec fn value_index(values: Seq<TileValue>, v: TileValue) -> int
    decreases values.len(),
{
    if values.len() == 0 {
        -1
    } else if tv_eq(values[0], v) {
        0
    } else {
        let r = value_index(values.skip(1), v);
        if r == -1 {
            -1
        } else {
            r + 1
        }
    }
}

/// What interning a key leaves in the table: the table itself when the key
/// is already present, else the table with the key appended.
pub open spec fn intern_key(keys: Seq<String>, k: String) -> Seq<String> {
    if key_index(keys, k@) >= 0 {
        keys
    } else {
        keys.push(k)
    }
}

/// The index a key is interned at.
pub open spec fn interned_key_index(keys: Seq<String>, k: Seq<char>) -> int {
    if key_index(keys, k) >= 0 {
        key_index(keys, k)
    } else {
        keys.len() as int
    }
}

/// What interning a value leaves in the table.
pub open spec fn intern_value(values: Seq<TileValue>, v: TileValue) -> Seq<TileValue> {
    if value_index(values, v) >= 0 {
        values
    } else {
        values.push(v)
    }
}

/// The index a value is interned at.
pub open spec fn interned_value_index(values: Seq<TileValue>, v: TileValue) -> int {
    if value_index(values, v) >= 0 {
        value_index(values, v)
    } else {
        values.len() as int
    }
}

/// The dedup law for keys: the first-match index is in range exactly when
/// an equal key is in the table, it points at an equal key, and no equal
/// key stands before it.
pub proof fn lemma_key_index(keys: Seq<String>, k: Seq<char>)
    ensures
        -1 <= key_index(keys, k) < keys.len(),
        (key_index(keys, k) >= 0) <==> (exists|i: int| 0 <= i < keys.len() && keys[i]@ == k),
        key_index(keys, k) >= 0 ==> keys[key_index(keys, k)]@ == k,
        forall|j: int| 0 <= j < keys.len() && keys[j]@ == k ==> key_index(keys, k) <= j,
    decreases keys.len(),
{
    if keys.len() > 0 && keys[0]@ != k {
        lemma_key_index(keys.skip(1), k);
        assert forall|i: int| 0 <= i < keys.len() && keys[i]@ == k implies key_index(keys, k)
            >= 0 by {
            assert(keys.skip(1)[i - 1] == keys[i]);
        }
        assert forall|j: int| 0 <= j < keys.len() && keys[j]@ == k implies key_index(keys, k)
            <= j by {
            assert(keys.skip(1)[j - 1] == keys[j]);
        }
    }
}

/// The dedup law for values, mirror of `lemma_key_index`.
pub proof fn lemma_value_index(values: Seq<TileValue>, v: TileValue)
    ensures
        -1 <= value_index(values, v) < values.len(),
        (value_index(values, v) >= 0) <==> (exists|i: int|
            0 <= i < values.len() && tv_eq(values[i], v)),
        value_index(values, v) >= 0 ==> tv_eq(values[value_index(values, v)], v),
        forall|j: int| 0 <= j < values.len() && tv_eq(values[j], v) ==> value_index(values, v) <= j,
    decreases values.len(),
{
    if values.len() > 0 && !tv_eq(values[0], v) {
        lemma_value_index(values.skip(1), v);
        assert forall|i: int| 0 <= i < values.len() && tv_eq(values[i], v) implies value_index(
            values,
            v,
        ) >= 0 by {
            assert(values.skip(1)[i - 1] == values[i]);
        }
        assert forall|j: int| 0 <= j < values.len() && tv_eq(values[j], v) implies value_index(
            values,
            v,
        ) <= j by {
            assert(values.skip(1)[j - 1] == values[j]);
        }
    }
}

/// The dedup invariant for keys: interning a key already present in the
/// table leaves the table unchanged — it does not grow — and reuses the
/// index of the first equal entry; interning a new key appends it and
/// assigns the next index, so indices follow first-insertion order.
pub proof fn lemma_intern_key_dedup(keys: Seq<String>, k: String)
    ensures
        (exists|i: int| 0 <= i < keys.len() && keys[i]@ == k@) ==> {
            &&& intern_key(keys, k) == keys
            &&& 0 <= interned_key_index(keys, k@) < keys.len()
            &&& keys[interned_key_index(keys, k@)]@ == k@
            &&& forall|j: int|
                0 <= j < keys.len() && keys[j]@ == k@ ==> interned_key_index(keys, k@) <= j
        },
        !(exists|i: int| 0 <= i < keys.len() && keys[i]@ == k@) ==> {
            &&& intern_key(keys, k) == keys.push(k)
            &&& interned_key_index(keys, k@) == keys.len()
        },
{
    lemma_key_index(keys, k@);
}

/// The dedup invariant for values, mirror of `lemma_intern_key_dedup`.
pub proof fn lemma_intern_value_dedup(values: Seq<TileValue>, v: TileValue)
    ensures
        (exists|i: int| 0 <= i < values.len() && tv_eq(values[i], v)) ==> {
            &&& intern_value(values, v) == values
            &&& 0 <= interned_value_index(values, v) < values.len()
            &&& tv_eq(values[interned_value_index(values, v)], v)
            &&& forall|j: int|
                0 <= j < values.len() && tv_eq(values[j], v) ==> interned_value_index(values, v)
                    <= j
        },
        !(exists|i: int| 0 <= i < values.len() && tv_eq(values[i], v)) ==> {
            &&& intern_value(values, v) == values.push(v)
            &&& interned_value_index(values, v) == values.len()
        },
{
    lemma_value_index(values, v);
}

/// Exact equality of two attribute values, as executable code.
pub fn tile_value_eq(a: &TileValue, b: &TileValue) -> (r: bool)
    ensures
        r == tv_eq(*a, *b),
{
    match (a, b) {
        (TileValue::Double(x), TileValue::Double(y)) => *x == *y,
        (TileValue::Int(x), TileValue::Int(y)) => *x == *y,
        (TileValue::Bool(x), TileValue::Bool(y)) => *x == *y,
        (TileValue::Str(x), TileValue::Str(y)) => *x == *y,
        _ => false,
    }
}

/// Appends one (key index, value index) tag pair to the feature, interning
/// the key and the value into the layer's tables first. A key or value
/// already present reuses its existing index and does not grow its table.
pub fn add_feature_attribute(
    mvt_layer: &mut Layer,
    mvt_feature: &mut Feature,
    key: String,
    value: TileValue,
)
    requires
        old(mvt_layer).keys@.len() < 0xFFFF_FFFF,
        old(mvt_layer).values@.len() < 0xFFFF_FFFF,
    ensures
        final(mvt_layer).keys@ == intern_key(old(mvt_layer).keys@, key),
        final(mvt_layer).values@ == intern_value(old(mvt_layer).values@, value),
        final(mvt_feature).tags@ == old(mvt_feature).tags@ + seq![
            interned_key_index(old(mvt_layer).keys@, key@) as u32,
            interned_value_index(old(mvt_layer).values@, value) as u32,
        ],
        final(mvt_layer).version == old(mvt_layer).version,
        final(mvt_layer).name == old(mvt_layer).name,
        final(mvt_layer).features == old(mvt_layer).features,
        final(mvt_layer).extent == old(mvt_layer).extent,
        final(mvt_feature).id == old(mvt_feature).id,
        final(mvt_feature).geom_type == old(mvt_feature).geom_type,
        final(mvt_feature).geometry == old(mvt_feature).geometry,
{
    proof {
        lemma_key_index(old(mvt_layer).keys@, key@);
        lemma_value_index(old(mvt_layer).values@, value);
    }
    let key_idx = match find_key(&mvt_layer.keys, &key) {
        None => {
            let idx = mvt_layer.keys.len();
            mvt_layer.keys.push(key);
            idx
        },
        Some(idx) => idx,
    };
    mvt_feature.tags.push(key_idx as u32);
    let val_idx = match find_value(&mvt_layer.values, &value) {
        None => {
            let idx = mvt_layer.values.len();
            mvt_layer.values.push(value);
            idx
        },
        Some(idx) => idx,
    };
    mvt_feature.tags.push(val_idx as u32);
    assert(final(mvt_feature).tags@ =~= old(mvt_feature).tags@ + seq![
        interned_key_index(old(mvt_layer).keys@, key@) as u32,
        interned_value_index(old(mvt_layer).values@, value) as u32,
    ]);
}

/// Linear scan of the key table for the first exact match.
fn find_key(keys: &Vec<String>, k: &String) -> (r: Option<usize>)
    ensures
        match r {
            Some(i) => key_index(keys@, k@) == i,
            None => key_index(keys@, k@) == -1,
        },
{
    proof {
        lemma_key_index(keys@, k@);
    }
    let mut i: usize = 0;
    while i < keys.len()
        invariant
            0 <= i <= keys@.len(),
            forall|j: int| 0 <= j < i ==> keys@[j]@ != k@,
            -1 <= key_index(keys@, k@) < keys@.len(),
            (key_index(keys@, k@) >= 0) <==> (exists|j: int|
                0 <= j < keys@.len() && keys@[j]@ == k@),
            key_index(keys@, k@) >= 0 ==> keys@[key_index(keys@, k@)]@ == k@,
            forall|j: int| 0 <= j < keys@.len() && keys@[j]@ == k@ ==> key_index(keys@, k@) <= j,
        decreases keys@.len() - i,
    {
        if keys[i] == *k {
            return Some(i);
        }
        i = i + 1;
    }
    None
}

/// Linear scan of the value table for the first exact match.
fn find_value(values: &Vec<TileValue>, v: &TileValue) -> (r: Option<usize>)
    ensures
        match r {
            Some(i) => value_index(values@, *v) == i,
            None => value_index(values@, *v) == -1,
        },
{
    proof {
        lemma_value_index(values@, *v);
    }
    let mut i: usize = 0;
    while i < values.len()
        invariant
            0 <= i <= values@.len(),
            forall|j: int| 0 <= j < i ==> !tv_eq(values@[j], *v),
            -1 <= value_index(values@, *v) < values@.len(),
            (value_index(values@, *v) >= 0) <==> (exists|j: int|
                0 <= j < values@.len() && tv_eq(values@[j], *v)),
            value_index(values@, *v) >= 0 ==> tv_eq(values@[value_index(values@, *v)], *v),
            forall|j: int|
                0 <= j < values@.len() && tv_eq(values@[j], *v) ==> value_index(values@, *v) <= j,
        decreases values@.len() - i,
    {
        if tile_value_eq(&values[i], v) {
            return Some(i);
        }
        i = i + 1;
    }
    None
}

/// The view a supported property value converts to, or `None` for an input
/// outside the supported union.
pub open spec fn tile_value_view(p: PropValue) -> Option<TileValue> {
    match p {
        PropValue::Double(b) => Some(TileValue::Double(b)),
        PropValue::Int(i) => Some(TileValue::Int(i)),
        PropValue::Bool(b) => Some(TileValue::Bool(b)),
        PropValue::Str(s) => Some(TileValue::Str(s)),
        PropValue::Null => None,
        PropValue::Array => None,
    }
}

/// Converts a property value into a table value, or fails with
/// `UnsupportedValueType` exactly on inputs outside the supported union.
pub fn to_tile_value(p: &PropValue) -> (r: Result<TileValue, MvtError>)
    ensures
        match tile_value_view(*p) {
            Some(v) => r == Ok::<TileValue, MvtError>(v),
            None => r == Err::<TileValue, MvtError>(MvtError::UnsupportedValueType),
        },
{
    match p {
        PropValue::Double(b) => Ok(TileValue::Double(*b)),
        PropValue::Int(i) => Ok(TileValue::Int(*i)),
        PropValue::Bool(b) => Ok(TileValue::Bool(*b)),
        PropValue::Str(s) => Ok(TileValue::Str(s.clone())),
        PropValue::Null => Err(MvtError::UnsupportedValueType),
        PropValue::Array => Err(MvtError::UnsupportedValueType),
    }
}

} // verus!
