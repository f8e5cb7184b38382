//! The tile's protocol-buffer wire form.
//!
//! A tile serializes to a fixed schema: a tile holds repeated layers
//! (field 3); a layer holds name (field 1), repeated features (2),
//! repeated keys (3), repeated values (4), extent (5) and version (15),
//! encoded in that order;
//! a feature holds id (1), packed tags (2), geometry type (3) and packed
//! geometry commands (4); a value holds exactly one of string (1),
//! double (3), int (4) or bool (7). Scalars are varint-encoded except the
//! double, which is its bit pattern in eight little-endian bytes. Nested
//! messages, strings and packed fields are length-delimited.

use vstd::prelude::*;

use crate::geom::GeomType;
use crate::layer::Feature;
use crate::layer::Layer;
use crate::layer::Tile;
use crate::layer::TileValue;
use vstd::utf8::encode_utf8;

verus! {

/// Base-128 varint encoding: seven value bits per byte, low bits first,
/// the high bit of every byte but the last set.
pub open spec fn varint(n: nat) -> Seq<u8>
    decreases n,
{
    if n < 0x80 {
        seq![n as u8]
    } else {
        seq![((n % 0x80) + 0x80) as u8] + varint(n / 0x80)
    }
}

/// The key of a protocol-buffer field: its number and wire type packed
/// into one varint.
pub open spec fn field_key(field: nat, wire: nat) -> Seq<u8> {
    varint(field * 8 + wire)
}

/// A length-delimited field: key, byte length, body.
pub open spec fn len_delim(field: nat, body: Seq<u8>) -> Seq<u8> {
    field_key(field, 2) + varint(body.len()) + body
}

/// The varints of a packed repeated field, in order.
pub open spec fn packed_varints(s: Seq<u32>) -> Seq<u8>
    decreases s.len(),
{
    if s.len() == 0 {
        Seq::empty()
    } else {
        packed_varints(s.drop_last()) + varint(s.last() as nat)
    }
}

/// The low `count` bytes of `n`, least significant first.
pub open spec fn le_bytes(n: nat, count: nat) -> Seq<u8>
    decreases count,
{
    if count == 0 {
        Seq::empty()
    } else {
        seq![(n % 0x100) as u8] + le_bytes(n / 0x100, (count - 1) as nat)
    }
}

/// The unsigned 64-bit reinterpretation of a signed 64-bit integer, the
/// form a negative int64 field takes on the wire.
pub open spec fn u64_of_i64(i: i64) -> nat {
    if i >= 0 {
        i as nat
    } else {
        (i + 0x1_0000_0000_0000_0000) as nat
    }
}

/// The wire code of a geometry type.
pub open spec fn geom_type_code(t: GeomType) -> nat {
    match t {
        GeomType::Point => 1,
        GeomType::Linestring => 2,
        GeomType::Polygon => 3,
    }
}

/// The wire form of one value message: exactly one of its fields is
/// present.
pub open spec fn value_bytes(v: TileValue) -> Seq<u8> {
    match v {
        TileValue::Str(s) => len_delim(1, encode_utf8(s@)),
        TileValue::Double(bits) => field_key(3, 1) + le_bytes(bits as nat, 8),
        TileValue::Int(i) => field_key(4, 0) + varint(u64_of_i64(i)),
        TileValue::Bool(b) => field_key(7, 0) + varint(
            if b {
                1
            } else {
                0
            },
        ),
    }
}

/// The wire form of a feature's fields: optional id (1), packed tags (2)
/// omitted when empty, geometry type (3), packed geometry commands (4)
/// omitted when empty.
pub open spec fn feature_fields(
    id: Option<u64>,
    tags: Seq<u32>,
    geom_type: GeomType,
    geometry: Seq<u32>,
) -> Seq<u8> {
    (match id {
        Some(n) => field_key(1, 0) + varint(n as nat),
        None => Seq::empty(),
    }) + (if tags.len() == 0 {
        Seq::<u8>::empty()
    } else {
        len_delim(2, packed_varints(tags))
    }) + field_key(3, 0) + varint(geom_type_code(geom_type)) + (if geometry.len() == 0 {
        Seq::<u8>::empty()
    } else {
        len_delim(4, packed_varints(geometry))
    })
}

/// The wire form of one feature message body.
pub open spec fn feature_bytes(f: Feature) -> Seq<u8> {
    feature_fields(f.id, f.tags@, f.geom_type, f.geometry@)
}

/// The concatenated length-delimited feature fields of a layer.
pub open spec fn features_bytes(fs: Seq<Feature>) -> Seq<u8>
    decreases fs.len(),
{
    if fs.len() == 0 {
        Seq::empty()
    } else {
        features_bytes(fs.drop_last()) + len_delim(2, feature_bytes(fs.last()))
    }
}

/// The concatenated length-delimited key fields of a layer.
pub open spec fn keys_bytes(ks: Seq<String>) -> Seq<u8>
    decreases ks.len(),
{
    if ks.len() == 0 {
        Seq::empty()
    } else {
        keys_bytes(ks.drop_last()) + len_delim(3, encode_utf8(ks.last()@))
    }
}

/// The concatenated length-delimited value fields of a layer.
pub open spec fn values_bytes(vs: Seq<TileValue>) -> Seq<u8>
    decreases vs.len(),
{
    if vs.len() == 0 {
        Seq::empty()
    } else {
        values_bytes(vs.drop_last()) + len_delim(4, value_bytes(vs.last()))
    }
}

/// The wire form of a layer message body, from its parts, in field-number
/// order: name, the features section, keys, values, the extent, and the
/// version (field 15) last.
pub open spec fn layer_fields(
    version: u32,
    name: Seq<char>,
    features_section: Seq<u8>,
    keys: Seq<String>,
    values: Seq<TileValue>,
    extent: Option<u32>,
) -> Seq<u8> {
    len_delim(1, encode_utf8(name)) + features_section + keys_bytes(keys) + values_bytes(values)
        + (match extent {
        Some(e) => field_key(5, 0) + varint(e as nat),
        None => Seq::empty(),
    }) + field_key(15, 0) + varint(version as nat)
}

/// The wire form of one layer message body.
pub open spec fn layer_bytes(l: Layer) -> Seq<u8> {
    layer_fields(l.version, l.name@, features_bytes(l.features@), l.keys@, l.values@, l.extent)
}

/// The concatenated length-delimited layer fields of a tile.
pub open spec fn layers_bytes(ls: Seq<Layer>) -> Seq<u8>
    decreases ls.len(),
{
    if ls.len() == 0 {
        Seq::empty()
    } else {
        layers_bytes(ls.drop_last()) + len_delim(3, layer_bytes(ls.last()))
    }
}

/// The wire form of a whole tile.
pub open spec fn tile_bytes(t: Tile) -> Seq<u8> {
    layers_bytes(t.layers@)
}

/// The number a varint byte sequence denotes.
pub open spec fn varint_value(s: Seq<u8>) -> nat
    decreases s.len(),
{
    if s.len() == 0 {
        0
    } else if s[0] < 0x80 {
        s[0] as nat
    } else {
        (s[0] - 0x80) as nat + 0x80 * varint_value(s.skip(1))
    }
}

/// Round trip of the varint encoding: decoding what `varint` produced
/// gives the number back, so the encoding loses nothing.
pub proof fn lemma_varint_round_trip(n: nat)
    ensures
        varint_value(varint(n)) == n,
    decreases n,
{
    if n >= 0x80 {
        lemma_varint_round_trip(n / 0x80);
        assert(varint(n).skip(1) =~= varint(n / 0x80));
        assert(n % 0x80 + 0x80 * (n / 0x80) == n) by (nonlinear_arith);
    }
}

/// Appends the varint encoding of `n`.
pub fn write_varint(out: &mut Vec<u8>, n: u64)
    ensures
        final(out)@ == old(out)@ + varint(n as nat),
{
    let mut m = n;
    while m >= 0x80
        invariant
            out@ + varint(m as nat) == old(out)@ + varint(n as nat),
        decreases m,
    {
        out.push(((m % 0x80) + 0x80) as u8);
        m = m / 0x80;
    }
    out.push(m as u8);
    assert(final(out)@ =~= old(out)@ + varint(n as nat));
}

/// Appends the varint encodings of a packed repeated field.
fn write_packed(out: &mut Vec<u8>, s: &Vec<u32>)
    ensures
        final(out)@ == old(out)@ + packed_varints(s@),
{
    let mut i: usize = 0;
    while i < s.len()
        invariant
            0 <= i <= s@.len(),
            out@ == old(out)@ + packed_varints(s@.take(i as int)),
        decreases s@.len() - i,
    {
        write_varint(out, s[i] as u64);
        proof {
            assert(s@.take(i + 1 as int).drop_last() =~= s@.take(i as int));
            assert(s@.take(i + 1 as int).last() == s@[i as int]);
        }
        i = i + 1;
    }
    assert(s@.take(s@.len() as int) =~= s@);
}

/// Appends the eight little-endian bytes of a 64-bit pattern.
fn write_le64(out: &mut Vec<u8>, n: u64)
    ensures
        final(out)@ == old(out)@ + le_bytes(n as nat, 8),
{
    let mut m = n;
    let mut k: usize = 0;
    while k < 8
        invariant
            0 <= k <= 8,
            out@ + le_bytes(m as nat, (8 - k) as nat) == old(out)@ + le_bytes(n as nat, 8),
        decreases 8 - k,
    {
        out.push((m % 0x100) as u8);
        m = m / 0x100;
        k = k + 1;
    }
}

/// Appends a length-delimited field: key, byte length, body.
fn write_len_delim(out: &mut Vec<u8>, field: u64, body: &Vec<u8>)
    requires
        1 <= field <= 15,
    ensures
        final(out)@ == old(out)@ + len_delim(field as nat, body@),
{
    write_varint(out, field * 8 + 2);
    write_varint(out, body.len() as u64);
    let mut b = body.clone();
    out.append(&mut b);
    assert(final(out)@ =~= old(out)@ + len_delim(field as nat, body@));
}

/// Appends the wire form of one value message, length-delimited under
/// `field`.
fn write_value_field(out: &mut Vec<u8>, field: u64, v: &TileValue)
    requires
        1 <= field <= 15,
    ensures
        final(out)@ == old(out)@ + len_delim(field as nat, value_bytes(*v)),
{
    let mut body: Vec<u8> = Vec::new();
    match v {
        TileValue::Str(s) => {
            write_varint(&mut body, 1 * 8 + 2);
            let bytes = s.as_str().as_bytes();
            write_varint(&mut body, bytes.len() as u64);
            let mut bv = vstd::slice::slice_to_vec(bytes);
            body.append(&mut bv);
            assert(body@ =~= value_bytes(*v));
        },
        TileValue::Double(bits) => {
            write_varint(&mut body, 3 * 8 + 1);
            write_le64(&mut body, *bits);
            assert(body@ =~= value_bytes(*v));
        },
        TileValue::Int(i) => {
            write_varint(&mut body, 4 * 8 + 0);
            let wide: u64 = if *i >= 0 {
                *i as u64
            } else {
                let m = (-(*i + 1)) as u64;
                0xFFFF_FFFF_FFFF_FFFF - m
            };
            assert(wide as nat == u64_of_i64(*i));
            write_varint(&mut body, wide);
            assert(body@ =~= value_bytes(*v));
        },
        TileValue::Bool(b) => {
            write_varint(&mut body, 7 * 8 + 0);
            write_varint(
                &mut body,
                if *b {
                    1
                } else {
                    0
                },
            );
            assert(body@ =~= value_bytes(*v));
        },
    }
    write_len_delim(out, field, &body);
}

/// Appends the wire form of one feature message, length-delimited under
/// field 2 of its layer.
fn write_feature_field(out: &mut Vec<u8>, f: &Feature)
    ensures
        final(out)@ == old(out)@ + len_delim(2, feature_bytes(*f)),
{
    let mut body: Vec<u8> = Vec::new();
    match f.id {
        Some(n) => {
            write_varint(&mut body, 1 * 8 + 0);
            write_varint(&mut body, n);
        },
        None => {},
    }
    if f.tags.len() > 0 {
        let mut packed: Vec<u8> = Vec::new();
        write_packed(&mut packed, &f.tags);
        write_len_delim(&mut body, 2, &packed);
    }
    write_varint(&mut body, 3 * 8 + 0);
    let code: u64 = match f.geom_type {
        GeomType::Point => 1,
        GeomType::Linestring => 2,
        GeomType::Polygon => 3,
    };
    write_varint(&mut body, code);
    if f.geometry.len() > 0 {
        let mut packed: Vec<u8> = Vec::new();
        write_packed(&mut packed, &f.geometry);
        write_len_delim(&mut body, 4, &packed);
    }
    assert(body@ =~= feature_bytes(*f));
    write_len_delim(out, 2, &body);
}

/// Appends the wire form of one layer message, length-delimited under
/// field 3 of the tile.
fn write_layer_field(out: &mut Vec<u8>, l: &Layer)
    ensures
        final(out)@ == old(out)@ + len_delim(3, layer_bytes(*l)),
{
    let mut body: Vec<u8> = Vec::new();
    let name_bytes = vstd::slice::slice_to_vec(l.name.as_str().as_bytes());
    write_len_delim(&mut body, 1, &name_bytes);
    let mut i: usize = 0;
    while i < l.features.len()
        invariant
            0 <= i <= l.features@.len(),
            body@ == len_delim(1, encode_utf8(l.name@)) + features_bytes(
                l.features@.take(i as int),
            ),
        decreases l.features@.len() - i,
    {
        write_feature_field(&mut body, &l.features[i]);
        proof {
            assert(l.features@.take(i + 1 as int).drop_last() =~= l.features@.take(i as int));
            assert(l.features@.take(i + 1 as int).last() == l.features@[i as int]);
        }
        i = i + 1;
    }
    assert(l.features@.take(l.features@.len() as int) =~= l.features@);
    let ghost after_features = body@;
    let mut i: usize = 0;
    while i < l.keys.len()
        invariant
            0 <= i <= l.keys@.len(),
            body@ == after_features + keys_bytes(l.keys@.take(i as int)),
        decreases l.keys@.len() - i,
    {
        let kb = vstd::slice::slice_to_vec(l.keys[i].as_str().as_bytes());
        write_len_delim(&mut body, 3, &kb);
        proof {
            assert(l.keys@.take(i + 1 as int).drop_last() =~= l.keys@.take(i as int));
            assert(l.keys@.take(i + 1 as int).last() == l.keys@[i as int]);
        }
        i = i + 1;
    }
    assert(l.keys@.take(l.keys@.len() as int) =~= l.keys@);
    let ghost after_keys = body@;
    let mut i: usize = 0;
    while i < l.values.len()
        invariant
            0 <= i <= l.values@.len(),
            body@ == after_keys + values_bytes(l.values@.take(i as int)),
        decreases l.values@.len() - i,
    {
        write_value_field(&mut body, 4, &l.values[i]);
        proof {
            assert(l.values@.take(i + 1 as int).drop_last() =~= l.values@.take(i as int));
            assert(l.values@.take(i + 1 as int).last() == l.values@[i as int]);
        }
        i = i + 1;
    }
    assert(l.values@.take(l.values@.len() as int) =~= l.values@);
    match l.extent {
        Some(e) => {
            write_varint(&mut body, 5 * 8 + 0);
            write_varint(&mut body, e as u64);
        },
        None => {},
    }
    write_varint(&mut body, 15 * 8 + 0);
    write_varint(&mut body, l.version as u64);
    assert(body@ =~= layer_bytes(*l));
    write_len_delim(out, 3, &body);
}

/// Serializes a tile to its binary wire form. Serialization has no failure
/// mode: every well-formed tile has exactly one wire form, a function of
/// the tile alone.
pub fn encode_tile(t: &Tile) -> (r: Vec<u8>)
    ensures
        r@ == tile_bytes(*t),
{
    let mut out: Vec<u8> = Vec::new();
    let mut i: usize = 0;
    while i < t.layers.len()
        invariant
            0 <= i <= t.layers@.len(),
            out@ == layers_bytes(t.layers@.take(i as int)),
        decreases t.layers@.len() - i,
    {
        write_layer_field(&mut out, &t.layers[i]);
        proof {
            assert(t.layers@.take(i + 1 as int).drop_last() =~= t.layers@.take(i as int));
            assert(t.layers@.take(i + 1 as int).last() == t.layers@[i as int]);
        }
        i = i + 1;
    }
    assert(t.layers@.take(t.layers@.len() as int) =~= t.layers@);
    out
}

} // verus!
