use std::f64::consts::PI;

use tunnel::projection::{distance_cell, isqrt, reduce_angle, ProjectionTable, TableError};
use tunnel::render::{rows_per_band, wrap, Scroll, World, TEXTURE_SIZE};
use tunnel::texture::{generate_texture, Texture};

fn sector_indices(width: u32, height: u32, cx: u32, cy: u32, tw: u32) -> Vec<i64> {
    let mut raw = Vec::new();
    for y in 0..height {
        for x in 0..width {
            let dx = x as f64 - cx as f64;
            let dy = y as f64 - cy as f64;
            raw.push((0.5 * tw as f64 * dy.atan2(dx) / PI).floor() as i64);
        }
    }
    raw
}

fn small_world(width: u32, height: u32) -> World {
    let raw = sector_indices(2 * width, 2 * height, width, height, TEXTURE_SIZE);
    World::new(width, height, &raw).unwrap()
}

#[test]
fn texture_cell_one_two() {
    let t = generate_texture(4, 4);
    assert_eq!(t[2 * 4 + 1], 192);
}

#[test]
fn texture_size_and_range() {
    for &(w, h) in &[(1usize, 1usize), (3, 5), (4, 4), (7, 2), (256, 256), (300, 1)] {
        let t = generate_texture(w, h);
        assert_eq!(t.len(), w * h);
        assert!(t.iter().all(|&v| v < 256));
    }
}

#[test]
fn texture_formula() {
    let t = Texture::generate(8, 4);
    assert_eq!(t.texel(0, 0), 0);
    assert_eq!(t.texel(3, 1), (3 * 256 / 8) ^ (256 / 4));
    assert_eq!(t.texel(7, 3), 224 ^ 192);
}

#[test]
fn integer_square_roots() {
    assert_eq!(isqrt(0), 0);
    assert_eq!(isqrt(1), 1);
    assert_eq!(isqrt(8), 2);
    assert_eq!(isqrt(9), 3);
    assert_eq!(isqrt(8192), 90);
    assert_eq!(isqrt(u128::MAX), u64::MAX as u128);
}

#[test]
fn two_by_two_scenario() {
    let raw = sector_indices(2, 2, 1, 1, 2);
    assert_eq!(raw[0], -1);
    let t = ProjectionTable::new(2, 2, 1, 1, 2, 2, 64, &raw).unwrap();
    assert_eq!(t.distance(0, 0), 0);
    assert_eq!(t.angle(0, 0), 1);
    assert_eq!(t.distance(1, 1), 1);
}

#[test]
fn angle_uses_true_modulo() {
    assert_eq!(reduce_angle(-1, 2), 1);
    assert_eq!(reduce_angle(-3, 256), 253);
    assert_eq!(reduce_angle(-256, 256), 0);
    assert_eq!(reduce_angle(300, 256), 44);
    assert_eq!(reduce_angle(i64::MIN, 7), (i64::MIN).rem_euclid(7) as u32);
}

#[test]
fn distance_values() {
    // 64 * 256 / 5 = 3276.8, and 3276 mod 256 = 204
    assert_eq!(distance_cell(3, 4, 0, 0, 256, 64), 204);
    // the center falls back to the deepest ring
    assert_eq!(distance_cell(9, 9, 9, 9, 256, 64), 255);
    assert_eq!(distance_cell(0, 0, 0, 0, 1, 64), 0);
}

#[test]
fn table_entries_in_range() {
    for &ratio in &[0u32, 64] {
        let raw = sector_indices(20, 12, 10, 6, 32);
        let t = ProjectionTable::new(20, 12, 10, 6, 32, 16, ratio, &raw).unwrap();
        for y in 0..12 {
            for x in 0..20 {
                assert!(t.distance(x, y) < 16);
                assert!(t.angle(x, y) < 32);
            }
        }
    }
}

#[test]
fn table_errors() {
    let raw = vec![0i64; 4];
    assert_eq!(ProjectionTable::new(0, 2, 0, 0, 2, 2, 64, &raw).err(), Some(TableError::EmptyGrid));
    assert_eq!(ProjectionTable::new(2, 2, 1, 1, 0, 2, 64, &raw).err(), Some(TableError::EmptyTexture));
    assert_eq!(
        ProjectionTable::new(2, 3, 1, 1, 2, 2, 64, &raw).err(),
        Some(TableError::AngleCountMismatch)
    );
    assert_eq!(World::new(0, 3, &raw).err(), Some(TableError::EmptyGrid));
    assert_eq!(World::new(1, 2, &raw).err(), Some(TableError::AngleCountMismatch));
}

#[test]
fn wrap_large_shift() {
    assert_eq!(wrap(5, u64::MAX, 256), 4);
    assert_eq!(wrap(255, 1, 256), 0);
    assert_eq!(wrap(3, 10, 7), 6);
    for shift in [0u64, 1, 1_000_000_007, u64::MAX - 1, u64::MAX] {
        assert!(wrap(255, shift, 256) < 256);
    }
}

#[test]
fn rows_cover_frame() {
    assert_eq!(rows_per_band(900, 20), 46);
    assert_eq!(rows_per_band(7, 1), 8);
    assert_eq!(rows_per_band(0, 3), 1);
    assert!(rows_per_band(u32::MAX, 1) > u32::MAX as u64);
}

#[test]
fn scroll_window_bounds() {
    let w = small_world(6, 4);
    let s = w.scroll(1, 2, 0, 0).unwrap();
    assert_eq!(s, Scroll { shift_x: 1, shift_y: 2, look_x: 3, look_y: 2 });
    assert_eq!(w.scroll(0, 0, -3, -2).unwrap().look_x, 0);
    assert_eq!(w.scroll(0, 0, 3, 2).unwrap().look_y, 4);
    assert!(w.scroll(0, 0, -4, 0).is_none());
    assert!(w.scroll(0, 0, 0, 3).is_none());
}

#[test]
fn render_is_deterministic() {
    let w = small_world(8, 6);
    let s = w.scroll(123_456, 789, 2, -1).unwrap();
    let mut a = vec![7u8; 8 * 6 * 4];
    let mut b = vec![9u8; 8 * 6 * 4];
    w.render(&mut a, &s);
    w.render(&mut b, &s);
    assert_eq!(a, b);
    assert!(a.chunks(4).all(|p| p[0] == 0 && p[2] == 0 && p[3] == 255));
}

#[test]
fn bands_match_single_pass() {
    let (width, height) = (10u32, 9u32);
    let w = small_world(width, height);
    let s = w.scroll(u64::MAX - 5, 1 << 40, -4, 3).unwrap();
    let mut whole = vec![0u8; (width * height * 4) as usize];
    w.render(&mut whole, &s);
    for bands in [2u32, 3, 4, 20] {
        let rows = rows_per_band(height, bands) as usize;
        let mut frame = vec![0u8; whole.len()];
        for (i, band) in frame.chunks_mut(rows * width as usize * 4).enumerate() {
            w.render_band(band, i * rows * width as usize, &s);
        }
        assert_eq!(frame, whole);
    }
}

#[test]
fn render_pixel_value() {
    let w = small_world(4, 4);
    let s = w.scroll(10, 20, 0, 0).unwrap();
    let mut frame = vec![0u8; 4 * 4 * 4];
    w.render(&mut frame, &s);
    // output pixel (1, 3) samples table cell (3, 5)
    let d = w.table.distance(3, 5);
    let a = w.table.angle(3, 5);
    let tx = ((d as u64 + 10) % 256) as usize;
    let ty = ((a as u64 + 20) % 256) as usize;
    let p = (3 * 4 + 1) * 4;
    assert_eq!(frame[p + 1], w.texture.texel(tx, ty) as u8);
    assert_eq!(frame[p + 1], ((tx * 256 / 256) ^ (ty * 256 / 256)) as u8);
}

#[test]
fn center_pixel_is_defined() {
    let w = small_world(4, 4);
    let s = w.scroll(3, 5, 0, 0).unwrap();
    assert_eq!(w.table.distance(4, 4), 255);
    let mut frame = vec![0u8; 4 * 4 * 4];
    w.render(&mut frame, &s);
    // the table center (4, 4) is output pixel (2, 2) under look offset (2, 2)
    let p = (2 * 4 + 2) * 4;
    let tx = (255 + 3) % 256;
    let ty = (w.table.angle(4, 4) as usize + 5) % 256;
    assert_eq!(frame[p + 1], w.texture.texel(tx, ty) as u8);
    assert_eq!(frame[p + 3], 255);
}
