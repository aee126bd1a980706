//! Unit checks of the coordinate record form, the statistics combines, the
//! packed tile encoding, the histogram and the counting helpers.

use osm_resolver::coords::{pack_coordinate, unpack_coordinate, BoundingBox, Coordinate};
use osm_resolver::counting::{way_span, Stats};
use osm_resolver::histogram::Histogram;
use osm_resolver::stats::{NodeStats, StatsAccumulator};
use osm_resolver::tiles::{PackedTileID, TileID};

#[test]
fn coordinate_record_round_trip() {
    let samples = [
        Coordinate { lat: 0, lon: 0 },
        Coordinate { lat: 10_000_000, lon: -20_000_000 },
        Coordinate { lat: -900_000_000, lon: 1_800_000_000 },
        Coordinate { lat: i32::MAX, lon: i32::MIN },
        Coordinate { lat: -1, lon: 1 },
    ];
    for c in samples {
        let packed = pack_coordinate(c);
        assert_eq!(unpack_coordinate(packed), c);
    }
    // The exact record layout: latitude in the upper half.
    assert_eq!(pack_coordinate(Coordinate { lat: 1, lon: 2 }), (1u64 << 32) | 2);
}

#[test]
fn sentinel_record_is_origin() {
    assert_eq!(unpack_coordinate(osm_resolver::coords::SENTINEL_RECORD), Coordinate::sentinel());
    assert_eq!(Coordinate::sentinel(), Coordinate { lat: 0, lon: 0 });
}

#[test]
fn bounding_box_encloses() {
    let mut b = BoundingBox::empty();
    b.enclose(Coordinate { lat: 5, lon: -7 });
    b.enclose(Coordinate { lat: -3, lon: 11 });
    assert_eq!(b.min_lat, -3);
    assert_eq!(b.max_lat, 5);
    assert_eq!(b.min_lon, -7);
    assert_eq!(b.max_lon, 11);
}

#[test]
fn stats_combine_commutative_and_associative() {
    let mut parts: Vec<StatsAccumulator> = Vec::new();
    for k in 0..4u64 {
        let mut s = StatsAccumulator::identity();
        s.ways_resolved = 3 * k + 1;
        s.ways_deferred = 7 * k;
        s.errors = k;
        s.add_point(Coordinate { lat: (k as i32) * 100 - 150, lon: 50 - (k as i32) * 33 });
        parts.push(s);
    }
    // Commutativity on a pair.
    let mut ab = parts[0];
    ab.combine(&parts[1]);
    let mut ba = parts[1];
    ba.combine(&parts[0]);
    assert_eq!(ab, ba);
    // Associativity on a triple.
    let mut left = parts[0];
    left.combine(&parts[1]);
    left.combine(&parts[2]);
    let mut bc = parts[1];
    bc.combine(&parts[2]);
    let mut right = parts[0];
    right.combine(&bc);
    assert_eq!(left, right);
    // The identity changes nothing.
    let mut with_identity = parts[3];
    with_identity.combine(&StatsAccumulator::identity());
    assert_eq!(with_identity, parts[3]);
    // Any merge order over the whole set gives one answer.
    let mut forward = StatsAccumulator::identity();
    for p in parts.iter() {
        forward.combine(p);
    }
    let mut backward = StatsAccumulator::identity();
    for p in parts.iter().rev() {
        backward.combine(p);
    }
    assert_eq!(forward, backward);
    assert_eq!(osm_resolver::stats::aggregate(&parts), forward);
}

#[test]
fn stats_counts_saturate() {
    let mut s = StatsAccumulator::identity();
    s.ways_resolved = u64::MAX - 1;
    let mut other = StatsAccumulator::identity();
    other.ways_resolved = 5;
    s.combine(&other);
    assert_eq!(s.ways_resolved, u64::MAX);
}

#[test]
fn node_stats_combine_commutative() {
    let mut a = NodeStats::identity();
    a.add_node(7, Coordinate { lat: 100, lon: -200 });
    let mut b = NodeStats::identity();
    b.add_node(3, Coordinate { lat: -50, lon: 900 });
    let mut ab = a;
    ab.combine(&b);
    let mut ba = b;
    ba.combine(&a);
    assert_eq!(ab, ba);
    assert_eq!(ab.node_count, 2);
    assert_eq!(ab.min_node_id, 3);
    assert_eq!(ab.max_node_id, 7);
    assert_eq!(ab.bbox.min_lat, -50);
    assert_eq!(ab.bbox.max_lon, 900);
}

#[test]
fn tile_id_round_trip() {
    let samples = [
        TileID { x: 0, y: 0, zoom: 0 },
        TileID { x: 1, y: 1, zoom: 1 },
        TileID { x: 8191, y: 8191, zoom: 13 },
        TileID { x: 123, y: 4567, zoom: 13 },
        TileID { x: 16383, y: 1, zoom: 14 },
        TileID { x: 32767, y: 32767, zoom: 15 },
        TileID { x: 0, y: 32767, zoom: 15 },
    ];
    for id in samples {
        let packed = PackedTileID::new(id);
        assert_eq!(packed.decode(), id);
    }
}

#[test]
fn tile_id_known_encoding() {
    // Zoom 2, x=3, y=1: four zoom bits then two 13-bit fields.
    let packed = PackedTileID::new(TileID { x: 3, y: 1, zoom: 2 });
    assert_eq!(packed.0, (2u32 << 26) | (3u32 << 13) | 1);
    // Zoom 15 spends two leading bits only.
    let packed15 = PackedTileID::new(TileID { x: 5, y: 9, zoom: 15 });
    assert_eq!(packed15.0, (3u32 << 30) | (5u32 << 15) | 9);
}

#[test]
fn histogram_add_and_merge() {
    let mut h = Histogram::new();
    h.add(2, 10);
    h.add(2, 5);
    h.add(0, 1);
    assert_eq!(h.len(), 3);
    assert_eq!(h.count_at(2), 2);
    assert_eq!(h.sum_at(2), 15);
    assert_eq!(h.count_at(0), 1);
    assert_eq!(h.count_at(1), 0);
    assert_eq!(h.count_at(9), 0);

    let mut other = Histogram::new();
    other.add(4, 7);
    other.add(2, 1);
    h.merge(&other);
    assert_eq!(h.len(), 5);
    assert_eq!(h.count_at(2), 3);
    assert_eq!(h.sum_at(2), 16);
    assert_eq!(h.count_at(4), 1);
    assert_eq!(h.sum_at(4), 7);
}

#[test]
fn histogram_grow_keeps_buckets() {
    let mut h = Histogram::new();
    h.add(1, 9);
    h.grow(10);
    assert_eq!(h.len(), 10);
    assert_eq!(h.count_at(1), 1);
    assert_eq!(h.sum_at(1), 9);
    assert_eq!(h.count_at(9), 0);
    h.grow(3);
    assert_eq!(h.len(), 10);
}

#[test]
fn counting_stats_tally() {
    let mut s = Stats::default();
    s.add_node(5, 2);
    s.add_node(9, 0);
    s.add_way(3);
    s.add_rel(1);
    assert_eq!(s.nodes, 1);
    assert_eq!(s.empty_nodes, 1);
    assert_eq!(s.node_tags, 2);
    assert_eq!(s.node_max_id, 9);
    assert_eq!(s.ways, 1);
    assert_eq!(s.way_tags, 3);
    assert_eq!(s.rels, 1);
    assert_eq!(s.rel_tags, 1);

    let mut t = Stats::identity();
    t.add_node(100, 1);
    let mut st = s;
    st.combine(&t);
    let mut ts = t;
    ts.combine(&s);
    assert_eq!(st, ts);
    assert_eq!(st.node_max_id, 100);
    assert_eq!(st.nodes, 2);
}

#[test]
fn way_span_bounds() {
    let refs: Vec<i64> = vec![40, 12, 99, 12];
    let (least, greatest, count) = way_span(&refs);
    assert_eq!(least, 12);
    assert_eq!(greatest, 99);
    assert_eq!(count, 4);

    let empty: Vec<i64> = Vec::new();
    let (least, greatest, count) = way_span(&empty);
    assert_eq!(least, i64::MAX);
    assert_eq!(greatest, i64::MIN);
    assert_eq!(count, 0);
}
