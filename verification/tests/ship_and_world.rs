use rusteroids::ship::{get_ship_vertices, ship_mesh_layout, ShipStyle};
use rusteroids::world::MapConfig;

#[test]
fn style_byte_round_trip() {
    let s = ShipStyle::from_byte(166);
    assert_eq!(s.base, 2);
    assert!(s.lined);
    assert!(!s.spear);
    assert!(!s.spikes);
    assert!(s.gem);
    assert!(s.shards);
    assert!(!s.aspects);
    assert_eq!(s.to_byte(), 166);
    for b in 0..=255u8 {
        assert_eq!(ShipStyle::from_byte(b).to_byte(), b);
    }
}

#[test]
fn plain_cursor_ship_is_one_fan() {
    let (vertices, indices) = get_ship_vertices(0);
    assert_eq!(vertices, vec![vec![(0, 20), (12, -10), (0, -20), (-12, -10)]]);
    assert_eq!(indices, vec![vec![0, 1, 2, 0, 2, 3]]);
}

#[test]
fn lined_ship_closes_its_outline() {
    let (vertices, indices) = get_ship_vertices(32);
    assert_eq!(vertices, vec![vec![(0, 20), (12, -10), (0, -20), (-12, -10), (0, 20)]]);
    assert_eq!(indices, vec![vec![0, 1, 1, 2, 2, 3, 3, 0]]);
}

#[test]
fn lined_shards_count_the_repeated_corner() {
    let (vertices, indices) = get_ship_vertices(34);
    assert_eq!(vertices.len(), 4);
    assert_eq!(vertices[0], vec![(-4, -12), (0, -24), (4, -12), (-4, -12)]);
    assert_eq!(indices[0], vec![0, 1, 1, 2, 2, 0]);
    assert_eq!(indices[1], vec![4, 5, 5, 6, 6, 4]);
    assert_eq!(indices[2], vec![8, 9, 9, 10, 10, 8]);
    assert_eq!(indices[3], vec![12, 13, 13, 14, 14, 15, 15, 12]);
}

#[test]
fn every_style_has_a_hull_with_a_nose() {
    for b in 0..=255u8 {
        let (vertices, indices) = get_ship_vertices(b);
        assert_eq!(vertices.len(), indices.len());
        assert!(vertices.iter().any(|p| p[0] == (0, 20)));
    }
}

#[test]
fn aspects_whiten_only_the_hull() {
    let mesh = ship_mesh_layout(1 + 8);
    assert!(!mesh.lined);
    assert_eq!(mesh.points.len(), 4 + 3 + 3);
    assert_eq!(mesh.highlighted, vec![true, true, true, true, false, false, false, false, false, false]);
    assert_eq!(mesh.indices, vec![0, 1, 2, 0, 2, 3, 4, 5, 6, 7, 8, 9]);
    let plain = ship_mesh_layout(0);
    assert_eq!(plain.highlighted, vec![false; 4]);
}

#[test]
fn ids_start_at_one() {
    let mut cfg = MapConfig::default();
    assert_eq!(cfg.new_id(), 1);
    assert_eq!(cfg.new_id(), 2);
    assert_eq!(cfg.last_id, 2);
}

#[test]
fn chunks_wrap_onto_the_map() {
    let cfg = MapConfig::default();
    assert_eq!(cfg.chunk_to_real_chunk_v2((-1, -1)), (4, 4));
    assert_eq!(cfg.chunk_to_real_chunk_v2((5, 7)), (0, 2));
    assert_eq!(cfg.chunk_to_real_chunk_v2((2, 3)), (2, 3));
    assert_eq!(cfg.chunk_to_real_chunk_v2((-6, -11)), (4, 4));
}

#[test]
fn real_chunk_is_idempotent_on_examples() {
    let cfg = MapConfig::default();
    for x in -12..12i64 {
        for y in -12..12i64 {
            let r = cfg.chunk_to_real_chunk_v2((x, y));
            assert!(0 <= r.0 && r.0 < 5 && 0 <= r.1 && r.1 < 5);
            assert_eq!(cfg.chunk_to_real_chunk_v2(r), r);
            assert_eq!(cfg.chunk_to_real_chunk_v2((x + 5, y - 10)), r);
        }
    }
}

#[test]
fn loaded_chunks_ring_the_map() {
    let cfg = MapConfig::default();
    let chunks = cfg.loaded_chunks();
    assert_eq!(chunks.len(), 49);
    assert_eq!(chunks[0], (-1, -1));
    assert_eq!(chunks[1], (-1, 0));
    assert_eq!(chunks[7], (0, -1));
    assert_eq!(chunks[48], (5, 5));
    let distinct: std::collections::HashSet<(i64, i64)> = chunks.iter().copied().collect();
    assert_eq!(distinct.len(), 49);
    assert!(chunks.iter().all(|c| -1 <= c.0 && c.0 <= 5 && -1 <= c.1 && c.1 <= 5));
}

#[test]
fn debug_view_draws_missing_outlines() {
    let mut cfg = MapConfig::default();
    assert!(!cfg.debug_render);
    cfg.toggle_debug_render();
    assert!(cfg.debug_render);
    let all = cfg.debug_chunks_to_draw(&vec![]);
    assert_eq!(all.len(), 49);
    assert_eq!(all[0].chunk, (-1, -1));
    assert_eq!(all[0].real_chunk, (4, 4));
    assert!(!all[0].is_real);
    let rest = cfg.debug_chunks_to_draw(&vec![(0, 0), (-1, -1)]);
    assert_eq!(rest.len(), 47);
    assert_eq!(rest[0].chunk, (-1, 0));
    assert!(rest.iter().all(|d| d.chunk != (0, 0)));
    let real = rest.iter().find(|d| d.chunk == (1, 1)).unwrap();
    assert!(real.is_real);
    assert_eq!(real.real_chunk, (1, 1));
}

#[test]
fn refill_until_one_asteroid_per_chunk() {
    let cfg = MapConfig::default();
    assert!(cfg.needs_more_asteroids(0));
    assert!(cfg.needs_more_asteroids(24));
    assert!(!cfg.needs_more_asteroids(25));
    assert!(!cfg.needs_more_asteroids(30));
}
