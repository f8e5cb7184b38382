//! Tile-space geometry and the MVT geometry-command encoder.
//!
//! A geometry arrives here already projected onto the tile's integer grid
//! (the projection from source coordinates is the caller's concern). The
//! encoder turns it into the MVT command stream: MoveTo/LineTo/ClosePath
//! command integers interleaved with zig-zag encoded coordinate deltas,
//! relative to a cursor that starts at the origin and persists across the
//! parts of a multi-part geometry.

use vstd::prelude::*;

verus! {

/// One coordinate pair on the tile's integer grid.
#[derive(Clone, Copy, PartialEq, Eq, Structural, Debug)]
pub struct TilePoint {
    pub x: i32,
    pub y: i32,
}

/// A geometry in tile space. Line strings hold their points in order;
/// polygon rings include the closing duplicate of their first point,
/// as decoded geometry does.
pub enum TileGeometry {
    Point(TilePoint),
    MultiPoint(Vec<TilePoint>),
    LineString(Vec<TilePoint>),
    MultiLineString(Vec<Vec<TilePoint>>),
    Polygon(Vec<Vec<TilePoint>>),
    MultiPolygon(Vec<Vec<Vec<TilePoint>>>),
}

/// The geometry-type tag of an MVT feature. Multi-part geometries collapse
/// to the same base type; the parts live in one command stream.
#[derive(Clone, Copy, PartialEq, Eq, Structural, Debug)]
pub enum GeomType {
    Point,
    Linestring,
    Polygon,
}

/// Command identifiers of the MVT geometry encoding.
pub const MOVE_TO: u32 = 1;

pub const LINE_TO: u32 = 2;

pub const CLOSE_PATH: u32 = 7;

/// A command integer packs a command identifier (3 bits) with a repeat
/// count: `(id & 0x7) | (count << 3)`, which for the three identifiers
/// equals `id + 8 * count`.
pub open spec fn command(id: nat, count: nat) -> nat {
    id + 8 * count
}

/// Zig-zag encoding of a signed delta: small magnitudes map to small
/// non-negative integers (0 -> 0, -1 -> 1, 1 -> 2, -2 -> 3, ...).
pub open spec fn zigzag(d: int) -> int {
    if d >= 0 {
        2 * d
    } else {
        -2 * d - 1
    }
}

/// A coordinate delta is clamped to the signed 32-bit range before the
/// zig-zag encoding, so that it fits one command parameter.
pub open spec fn sat32(d: int) -> int {
    if d < -0x8000_0000 {
        -0x8000_0000
    } else if d > 0x7FFF_FFFF {
        0x7FFF_FFFF
    } else {
        d
    }
}

/// The two parameter integers that move the cursor from `c` to `p`.
pub open spec fn param_pair(p: TilePoint, c: TilePoint) -> Seq<u32> {
    seq![
        zigzag(sat32(p.x - c.x)) as u32,
        zigzag(sat32(p.y - c.y)) as u32,
    ]
}

/// Parameter pairs for a run of points, each delta taken from the point
/// before it, starting at cursor `c`.
pub open spec fn param_chain(pts: Seq<TilePoint>, c: TilePoint) -> Seq<u32>
    decreases pts.len(),
{
    if pts.len() == 0 {
        Seq::empty()
    } else {
        param_pair(pts[0], c) + param_chain(pts.skip(1), pts[0])
    }
}

/// Where the cursor stands after a run of points.
pub open spec fn chain_end(pts: Seq<TilePoint>, c: TilePoint) -> TilePoint {
    if pts.len() == 0 {
        c
    } else {
        pts.last()
    }
}

/// Commands of one line-string part of at least two points: MoveTo the
/// first point, then one LineTo holding the remaining points.
pub open spec fn line_commands(pts: Seq<TilePoint>, c: TilePoint) -> Seq<u32> {
    seq![command(MOVE_TO as nat, 1) as u32]
        + param_pair(pts[0], c)
        + seq![command(LINE_TO as nat, (pts.len() - 1) as nat) as u32]
        + param_chain(pts.skip(1), pts[0])
}

/// Commands of one polygon ring of at least four points (counting the
/// closing duplicate). The closing duplicate is not emitted; a ClosePath
/// command stands in its place.
pub open spec fn ring_commands(pts: Seq<TilePoint>, c: TilePoint) -> Seq<u32> {
    let ring = pts.take(pts.len() - 1);
    seq![command(MOVE_TO as nat, 1) as u32]
        + param_pair(ring[0], c)
        + seq![command(LINE_TO as nat, (ring.len() - 1) as nat) as u32]
        + param_chain(ring.skip(1), ring[0])
        + seq![command(CLOSE_PATH as nat, 1) as u32]
}

/// Commands and final cursor of a sequence of line-string parts. A part
/// with fewer than two points is dropped: it contributes no commands and
/// leaves the cursor where it was.
pub open spec fn lines_commands(parts: Seq<Vec<TilePoint>>, c: TilePoint) -> (Seq<u32>, TilePoint)
    decreases parts.len(),
{
    if parts.len() == 0 {
        (Seq::empty(), c)
    } else {
        let head = if parts[0]@.len() >= 2 {
            (line_commands(parts[0]@, c), chain_end(parts[0]@, c))
        } else {
            (Seq::<u32>::empty(), c)
        };
        let rest = lines_commands(parts.skip(1), head.1);
        (head.0 + rest.0, rest.1)
    }
}

/// Commands and final cursor of a sequence of polygon rings. A ring with
/// fewer than four points (counting the closing duplicate) is dropped: it
/// contributes no commands and leaves the cursor where it was.
pub open spec fn rings_commands(rings: Seq<Vec<TilePoint>>, c: TilePoint) -> (Seq<u32>, TilePoint)
    decreases rings.len(),
{
    if rings.len() == 0 {
        (Seq::empty(), c)
    } else {
        let head = if rings[0]@.len() >= 4 {
            (ring_commands(rings[0]@, c), chain_end(rings[0]@.take(rings[0]@.len() - 1), c))
        } else {
            (Seq::<u32>::empty(), c)
        };
        let rest = rings_commands(rings.skip(1), head.1);
        (head.0 + rest.0, rest.1)
    }
}

/// Commands and final cursor of a sequence of polygons, each a sequence
/// of rings.
pub open spec fn polygons_commands(polys: Seq<Vec<Vec<TilePoint>>>, c: TilePoint) -> (
    Seq<u32>,
    TilePoint,
)
    decreases polys.len(),
{
    if polys.len() == 0 {
        (Seq::empty(), c)
    } else {
        let head = rings_commands(polys[0]@, c);
        let rest = polygons_commands(polys.skip(1), head.1);
        (head.0 + rest.0, rest.1)
    }
}

/// The cursor's starting position: the tile grid's origin.
pub open spec fn origin() -> TilePoint {
    TilePoint { x: 0, y: 0 }
}

/// The full command stream of a geometry, cursor starting at the origin.
pub open spec fn geometry_commands(g: TileGeometry) -> Seq<u32> {
    match g {
        TileGeometry::Point(p) => seq![command(MOVE_TO as nat, 1) as u32] + param_pair(p, origin()),
        TileGeometry::MultiPoint(ps) => seq![command(MOVE_TO as nat, ps@.len()) as u32]
            + param_chain(ps@, origin()),
        TileGeometry::LineString(ps) => if ps@.len() >= 2 {
            line_commands(ps@, origin())
        } else {
            Seq::empty()
        },
        TileGeometry::MultiLineString(parts) => lines_commands(parts@, origin()).0,
        TileGeometry::Polygon(rings) => rings_commands(rings@, origin()).0,
        TileGeometry::MultiPolygon(polys) => polygons_commands(polys@, origin()).0,
    }
}

/// The MVT geometry-type tag of a geometry.
pub open spec fn spec_geometry_type(g: TileGeometry) -> GeomType {
    match g {
        TileGeometry::Point(_) | TileGeometry::MultiPoint(_) => GeomType::Point,
        TileGeometry::LineString(_) | TileGeometry::MultiLineString(_) => GeomType::Linestring,
        TileGeometry::Polygon(_) | TileGeometry::MultiPolygon(_) => GeomType::Polygon,
    }
}

/// A part's point count must leave its repeat count under 2^29, the
/// width of the count field in a command integer.
pub open spec fn part_len_ok(n: nat) -> bool {
    n < 0x2000_0000
}

/// Every part of the geometry is small enough for its repeat count to
/// fit a command integer.
pub open spec fn geometry_wf(g: TileGeometry) -> bool {
    match g {
        TileGeometry::Point(_) => true,
        TileGeometry::MultiPoint(ps) => part_len_ok(ps@.len()),
        TileGeometry::LineString(ps) => part_len_ok(ps@.len()),
        TileGeometry::MultiLineString(parts) => forall|i: int|
            0 <= i < parts@.len() ==> part_len_ok(#[trigger] parts@[i]@.len()),
        TileGeometry::Polygon(rings) => forall|i: int|
            0 <= i < rings@.len() ==> part_len_ok(#[trigger] rings@[i]@.len()),
        TileGeometry::MultiPolygon(polys) => forall|i: int, j: int|
            0 <= i < polys@.len() && 0 <= j < polys@[i]@.len() ==> part_len_ok(
                #[trigger] polys@[i]@[j]@.len(),
            ),
    }
}

/// Encodes one signed 32-bit delta with zig-zag encoding.
pub fn zigzag32(d: i32) -> (r: u32)
    ensures
        r == zigzag(d as int),
{
    let wide: i64 = d as i64;
    let z: i64 = if wide >= 0 {
        2 * wide
    } else {
        let neg: i64 = -wide;
        2 * neg - 1
    };
    z as u32
}

/// Pushes the zig-zag encoded, saturated deltas that move the cursor from
/// `c` to `p`.
fn push_param_pair(out: &mut Vec<u32>, p: TilePoint, c: TilePoint)
    ensures
        final(out)@ == old(out)@ + param_pair(p, c),
{
    let dx: i64 = p.x as i64 - c.x as i64;
    let dy: i64 = p.y as i64 - c.y as i64;
    let sx: i32 = if dx < -0x8000_0000 {
        -0x8000_0000
    } else if dx > 0x7FFF_FFFF {
        0x7FFF_FFFF
    } else {
        dx as i32
    };
    let sy: i32 = if dy < -0x8000_0000 {
        -0x8000_0000
    } else if dy > 0x7FFF_FFFF {
        0x7FFF_FFFF
    } else {
        dy as i32
    };
    out.push(zigzag32(sx));
    out.push(zigzag32(sy));
    assert(out@ =~= old(out)@ + param_pair(p, c));
}

/// Packs a command identifier with its repeat count into one command
/// integer.
fn command_integer(id: u32, count: u32) -> (r: u32)
    requires
        id <= 7,
        count < 0x2000_0000,
    ensures
        r == command(id as nat, count as nat),
{
    id + 8 * count
}

/// Pushes parameter pairs for the points of `pts` from index `from` on,
/// each delta taken from the point before it, starting at cursor `c`.
/// Returns the final cursor.
fn push_param_chain(out: &mut Vec<u32>, pts: &Vec<TilePoint>, from: usize, c: TilePoint) -> (r:
    TilePoint)
    requires
        from <= pts@.len(),
    ensures
        final(out)@ == old(out)@ + param_chain(pts@.skip(from as int), c),
        r == chain_end(pts@.skip(from as int), c),
{
    let mut cur = c;
    let mut i = from;
    while i < pts.len()
        invariant
            from <= i <= pts@.len(),
            out@ + param_chain(pts@.skip(i as int), cur) == old(out)@ + param_chain(
                pts@.skip(from as int),
                c,
            ),
            chain_end(pts@.skip(i as int), cur) == chain_end(pts@.skip(from as int), c),
        decreases pts@.len() - i,
    {
        let p = pts[i];
        proof {
            assert(pts@.skip(i as int)[0] == pts@[i as int]);
            assert(pts@.skip(i as int).skip(1) =~= pts@.skip(i as int + 1));
            if i + 1 < pts@.len() {
                assert(pts@.skip(i as int).last() == pts@.skip(i as int + 1).last());
            }
        }
        push_param_pair(out, p, cur);
        cur = p;
        i = i + 1;
    }
    assert(pts@.skip(pts@.len() as int) =~= Seq::<TilePoint>::empty());
    cur
}

/// Pushes the commands of one line-string part and returns the new cursor.
/// A part with fewer than two points is dropped.
fn push_line(out: &mut Vec<u32>, pts: &Vec<TilePoint>, c: TilePoint) -> (r: TilePoint)
    requires
        part_len_ok(pts@.len()),
    ensures
        pts@.len() >= 2 ==> final(out)@ == old(out)@ + line_commands(pts@, c) && r == chain_end(
            pts@,
            c,
        ),
        pts@.len() < 2 ==> final(out)@ == old(out)@ && r == c,
{
    if pts.len() < 2 {
        return c;
    }
    out.push(command_integer(MOVE_TO, 1));
    push_param_pair(out, pts[0], c);
    out.push(command_integer(LINE_TO, (pts.len() - 1) as u32));
    let end = push_param_chain(out, pts, 1, pts[0]);
    proof {
        assert(final(out)@ =~= old(out)@ + line_commands(pts@, c));
        assert(pts@.skip(1).last() == pts@.last());
    }
    end
}

/// Pushes the commands of one polygon ring (closing duplicate included in
/// `pts`, not emitted) and returns the new cursor. A ring with fewer than
/// four points is dropped.
fn push_ring(out: &mut Vec<u32>, pts: &Vec<TilePoint>, c: TilePoint) -> (r: TilePoint)
    requires
        part_len_ok(pts@.len()),
    ensures
        pts@.len() >= 4 ==> final(out)@ == old(out)@ + ring_commands(pts@, c) && r == chain_end(
            pts@.take(pts@.len() - 1),
            c,
        ),
        pts@.len() < 4 ==> final(out)@ == old(out)@ && r == c,
{
    if pts.len() < 4 {
        return c;
    }
    let ghost ring = pts@.take(pts@.len() - 1);
    out.push(command_integer(MOVE_TO, 1));
    push_param_pair(out, pts[0], c);
    out.push(command_integer(LINE_TO, (pts.len() - 2) as u32));
    let mut cur = pts[0];
    let mut i: usize = 1;
    let ghost mid = out@;
    while i < pts.len() - 1
        invariant
            1 <= i <= pts@.len() - 1,
            pts@.len() >= 4,
            ring == pts@.take(pts@.len() - 1),
            cur == (if i == 1 {
                pts@[0]
            } else {
                pts@[i - 1]
            }),
            out@ + param_chain(ring.skip(i as int), cur) == mid + param_chain(
                ring.skip(1),
                ring[0],
            ),
        decreases pts@.len() - i,
    {
        let p = pts[i];
        proof {
            assert(ring.skip(i as int)[0] == ring[i as int]);
            assert(ring[i as int] == pts@[i as int]);
            assert(ring.skip(i as int).skip(1) =~= ring.skip(i as int + 1));
        }
        push_param_pair(out, p, cur);
        cur = p;
        i = i + 1;
    }
    proof {
        assert(ring.skip(ring.len() as int) =~= Seq::<TilePoint>::empty());
    }
    out.push(command_integer(CLOSE_PATH, 1));
    proof {
        assert(ring[0] == pts@[0]);
        assert(ring.len() == pts@.len() - 1);
        assert(final(out)@ =~= old(out)@ + ring_commands(pts@, c));
        assert(cur == ring.last());
        assert(cur == chain_end(ring, c));
    }
    cur
}

/// Pushes the commands of a sequence of polygon rings, threading the
/// cursor, and returns the final cursor.
fn push_rings(out: &mut Vec<u32>, rings: &Vec<Vec<TilePoint>>, c: TilePoint) -> (r: TilePoint)
    requires
        forall|i: int| 0 <= i < rings@.len() ==> part_len_ok(#[trigger] rings@[i]@.len()),
    ensures
        final(out)@ == old(out)@ + rings_commands(rings@, c).0,
        r == rings_commands(rings@, c).1,
{
    let mut cur = c;
    let mut i: usize = 0;
    assert(rings@.skip(0) =~= rings@);
    while i < rings.len()
        invariant
            0 <= i <= rings@.len(),
            forall|k: int| 0 <= k < rings@.len() ==> part_len_ok(#[trigger] rings@[k]@.len()),
            out@ + rings_commands(rings@.skip(i as int), cur).0 == old(out)@ + rings_commands(
                rings@,
                c,
            ).0,
            rings_commands(rings@.skip(i as int), cur).1 == rings_commands(rings@, c).1,
        decreases rings@.len() - i,
    {
        proof {
            assert(rings@.skip(i as int)[0] == rings@[i as int]);
            assert(rings@.skip(i as int).skip(1) =~= rings@.skip(i as int + 1));
        }
        cur = push_ring(out, &rings[i], cur);
        i = i + 1;
    }
    assert(rings@.skip(rings@.len() as int) =~= Seq::<Vec<TilePoint>>::empty());
    cur
}

/// The geometry-type tag of a geometry, as executable code.
pub fn geometry_type(g: &TileGeometry) -> (r: GeomType)
    ensures
        r == spec_geometry_type(*g),
{
    match g {
        TileGeometry::Point(_) => GeomType::Point,
        TileGeometry::MultiPoint(_) => GeomType::Point,
        TileGeometry::LineString(_) => GeomType::Linestring,
        TileGeometry::MultiLineString(_) => GeomType::Linestring,
        TileGeometry::Polygon(_) => GeomType::Polygon,
        TileGeometry::MultiPolygon(_) => GeomType::Polygon,
    }
}

/// Encodes a tile-space geometry into its MVT geometry-command stream.
/// Degenerate parts (a line of fewer than two points, a ring of fewer
/// than four) contribute no commands.
pub fn encode_geometry(g: &TileGeometry) -> (r: Vec<u32>)
    requires
        geometry_wf(*g),
    ensures
        r@ == geometry_commands(*g),
{
    let mut out: Vec<u32> = Vec::new();
    match g {
        TileGeometry::Point(p) => {
            out.push(command_integer(MOVE_TO, 1));
            push_param_pair(&mut out, *p, TilePoint { x: 0, y: 0 });
            assert(out@ =~= geometry_commands(*g));
        },
        TileGeometry::MultiPoint(ps) => {
            out.push(command_integer(MOVE_TO, ps.len() as u32));
            push_param_chain(&mut out, ps, 0, TilePoint { x: 0, y: 0 });
            proof {
                assert(ps@.skip(0) =~= ps@);
                assert(out@ =~= geometry_commands(*g));
            }
        },
        TileGeometry::LineString(ps) => {
            push_line(&mut out, ps, TilePoint { x: 0, y: 0 });
            assert(out@ =~= geometry_commands(*g));
        },
        TileGeometry::MultiLineString(parts) => {
            let mut cur = TilePoint { x: 0, y: 0 };
            let mut i: usize = 0;
            assert(parts@.skip(0) =~= parts@);
            while i < parts.len()
                invariant
                    0 <= i <= parts@.len(),
                    forall|k: int|
                        0 <= k < parts@.len() ==> part_len_ok(#[trigger] parts@[k]@.len()),
                    out@ + lines_commands(parts@.skip(i as int), cur).0 == lines_commands(
                        parts@,
                        origin(),
                    ).0,
                decreases parts@.len() - i,
            {
                proof {
                    assert(parts@.skip(i as int)[0] == parts@[i as int]);
                    assert(parts@.skip(i as int).skip(1) =~= parts@.skip(i as int + 1));
                }
                cur = push_line(&mut out, &parts[i], cur);
                i = i + 1;
            }
            proof {
                assert(parts@.skip(parts@.len() as int) =~= Seq::<Vec<TilePoint>>::empty());
                assert(out@ =~= geometry_commands(*g));
            }
        },
        TileGeometry::Polygon(rings) => {
            push_rings(&mut out, rings, TilePoint { x: 0, y: 0 });
            assert(out@ =~= geometry_commands(*g));
        },
        TileGeometry::MultiPolygon(polys) => {
            let mut cur = TilePoint { x: 0, y: 0 };
            let mut i: usize = 0;
            assert(polys@.skip(0) =~= polys@);
            while i < polys.len()
                invariant
                    0 <= i <= polys@.len(),
                    forall|k: int, j: int|
                        0 <= k < polys@.len() && 0 <= j < polys@[k]@.len() ==> part_len_ok(
                            #[trigger] polys@[k]@[j]@.len(),
                        ),
                    out@ + polygons_commands(polys@.skip(i as int), cur).0 == polygons_commands(
                        polys@,
                        origin(),
                    ).0,
                decreases polys@.len() - i,
            {
                proof {
                    assert(polys@.skip(i as int)[0] == polys@[i as int]);
                    assert(polys@.skip(i as int).skip(1) =~= polys@.skip(i as int + 1));
                }
                cur = push_rings(&mut out, &polys[i], cur);
                i = i + 1;
            }
            proof {
                assert(polys@.skip(polys@.len() as int) =~= Seq::<Vec<Vec<TilePoint>>>::empty());
                assert(out@ =~= geometry_commands(*g));
            }
        },
    }
    out
}

} // verus!
