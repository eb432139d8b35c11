use hex_world::chunk_id::{ChunkId, CHUNK_HEIGHT, CHUNK_RADIUS};
use hex_world::columns::ColumnId;
use hex_world::ipos::{IPos, RoundAxis};

fn hex_len(q: i64, r: i64) -> i64 {
    q.abs().max(r.abs()).max((q + r).abs())
}

#[test]
fn distance_is_symmetric_and_zero_on_itself() {
    let a = IPos::new(3, -7, 2);
    let b = IPos::new(-4, 1, 9);
    assert_eq!(IPos::distance(&a, &b), IPos::distance(&b, &a));
    assert_eq!(IPos::distance(&a, &b), 8);
    assert_eq!(IPos::distance(&a, &a), 0);
}

#[test]
fn distance_to_each_neighbour_is_one() {
    let a = IPos::new(5, -2, 4);
    for i in 0..6 {
        let n = a.neighbour(i);
        assert_eq!(IPos::distance(&a, &n), 1);
        assert_eq!(n.z(), 4);
    }
}

#[test]
fn distance_uses_the_third_coordinate() {
    // |dq| = 2, |dr| = 2, |ds| = 4
    assert_eq!(IPos::distance(&IPos::new(2, 2, 0), &IPos::new(0, 0, 0)), 4);
}

#[test]
fn direction_wraps_every_six() {
    for i in 0..30u32 {
        assert_eq!(IPos::direction(i), IPos::direction(i + 6));
        assert_eq!(ColumnId::direction(i), ColumnId::direction(i + 6));
    }
    assert_eq!(IPos::direction(0), IPos::new(1, 0, 0));
    assert_eq!(IPos::direction(1), IPos::new(0, 1, 0));
    assert_eq!(IPos::direction(2), IPos::new(-1, 1, 0));
    assert_eq!(IPos::direction(3), IPos::new(-1, 0, 0));
    assert_eq!(IPos::direction(4), IPos::new(0, -1, 0));
    assert_eq!(IPos::direction(5), IPos::new(1, -1, 0));
}

#[test]
fn ring_has_six_r_columns_at_distance_r() {
    for radius in 1..7u32 {
        let ring = ColumnId::ring(radius);
        assert_eq!(ring.len(), 6 * radius as usize);
        for c in ring.iter() {
            assert_eq!(hex_len(c.q as i64, c.r as i64), radius as i64);
        }
        assert_eq!(ring[0], ColumnId::new(radius as i32, 0));
    }
    assert!(ColumnId::ring(0).is_empty());
}

#[test]
fn spiral_covers_hexagon_once() {
    for radius in 0..9u32 {
        let spiral = ColumnId::spiral(radius);
        let r = radius as usize;
        assert_eq!(spiral.len(), 3 * r * r + 3 * r + 1);
        assert_eq!(spiral[0], ColumnId::new(0, 0));
        for (i, a) in spiral.iter().enumerate() {
            assert!(hex_len(a.q as i64, a.r as i64) <= radius as i64);
            for b in spiral.iter().skip(i + 1) {
                assert_ne!(a, b);
            }
        }
    }
}

#[test]
fn center_pos_of_chunk_lattice() {
    let r = CHUNK_RADIUS as i32;
    assert_eq!(ChunkId::new(0, 0, 0).center_pos(), IPos::new(0, 0, 0));
    assert_eq!(ChunkId::new(1, 0, 0).center_pos(), IPos::new(2 * r + 1, -r, 0));
    assert_eq!(ChunkId::new(0, 1, 2).center_pos(), IPos::new(r, r + 1, 2 * CHUNK_HEIGHT as i32));
}

#[test]
fn every_block_maps_back_to_its_chunk() {
    for cq in -3..4 {
        for cr in -3..4 {
            for cz in -1..2 {
                let id = ChunkId::new(cq, cr, cz);
                let center = id.center_pos();
                for c in ColumnId::spiral(CHUNK_RADIUS as u32).iter() {
                    for z in [0, 1, CHUNK_HEIGHT as i32 - 1] {
                        let block = IPos::new(center.q + c.q, center.r + c.r, center.z + z);
                        assert_eq!(ChunkId::from_block_pos(&block), id);
                    }
                }
            }
        }
    }
}

#[test]
fn block_outside_footprint_belongs_to_neighbour_chunk() {
    let r = CHUNK_RADIUS as i32;
    // One step past the footprint along +q lies in the chunk whose centre is (2R + 1, -R).
    let block = IPos::new(r + 1, 0, 0);
    let owner = ChunkId::from_block_pos(&block);
    assert_ne!(owner, ChunkId::new(0, 0, 0));
    assert!(IPos::distance(&block, &owner.center_pos()) <= r as i64);
    assert_eq!(ChunkId::from_block_pos(&IPos::new(0, 0, -1)), ChunkId::new(0, 0, -1));
}

#[test]
fn from_rounded_fixes_the_largest_error() {
    assert_eq!(IPos::from_rounded(1, 1, -1, 3, RoundAxis::Q), IPos::new(0, 1, 3));
    assert_eq!(IPos::from_rounded(1, 1, -1, 3, RoundAxis::R), IPos::new(1, 0, 3));
    assert_eq!(IPos::from_rounded(1, 0, -1, 3, RoundAxis::S), IPos::new(1, 0, 3));
    let p = IPos::from_rounded(4, -9, 6, 0, RoundAxis::Q);
    assert_eq!(p.q() as i64 + p.r() as i64 + p.s(), 0);
}

#[test]
fn hex_round_of_cartesian_round_trip() {
    // Flat-topped axial coordinates to Cartesian and back, rounded by the
    // float side and completed by the library.
    let radius = 0.6f64;
    let sqrt3 = 3f64.sqrt();
    for q in -20..20 {
        for r in -20..20 {
            let x = radius * 1.5 * q as f64;
            let y = radius * (sqrt3 / 2.0 * q as f64 + sqrt3 * r as f64);
            let fq = (2.0 / 3.0 * x) / radius;
            let fr = (-1.0 / 3.0 * x + sqrt3 / 3.0 * y) / radius;
            let fs = -fq - fr;
            let (rq, rr, rs) = (fq.round(), fr.round(), fs.round());
            let (dq, dr, ds) = ((rq - fq).abs(), (rr - fr).abs(), (rs - fs).abs());
            let largest = if dq > dr && dq > ds {
                RoundAxis::Q
            } else if dr > ds {
                RoundAxis::R
            } else {
                RoundAxis::S
            };
            let p = IPos::from_rounded(rq as i32, rr as i32, rs as i32, 0, largest);
            assert_eq!(p, IPos::new(q, r, 0));
        }
    }
}

#[test]
fn positions_order_by_q_then_r_then_z() {
    let mut ps = vec![
        IPos::new(1, 0, 0),
        IPos::new(0, 5, 1),
        IPos::new(0, 5, 0),
        IPos::new(-1, 9, 9),
        IPos::new(0, -2, 7),
    ];
    ps.sort();
    assert_eq!(
        ps,
        vec![IPos::new(-1, 9, 9), IPos::new(0, -2, 7), IPos::new(0, 5, 0), IPos::new(0, 5, 1), IPos::new(1, 0, 0)]
    );
    assert!(IPos::new(0, 0, 1) > IPos::new(0, 0, 0));
    assert!(ChunkId::new(-1, 5, 5) < ChunkId::new(0, 0, 0));
    assert!(ChunkId::new(0, 1, 0) > ChunkId::new(0, 0, 3));
    assert_eq!(ChunkId::new(2, 2, 2).partial_cmp(&ChunkId::new(2, 2, 2)), Some(std::cmp::Ordering::Equal));
}
