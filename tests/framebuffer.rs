use chip8::screen::Screen;

fn lit(s: &Screen) -> Vec<(u8, u8)> {
    let mut out = Vec::new();
    for y in 0..32u8 {
        for x in 0..64u8 {
            if s.pixel(x, y) {
                out.push((x, y));
            }
        }
    }
    out
}

#[test]
fn draw_twice_restores_and_collides() {
    let mut s = Screen::new();
    let sprite = [0b1010_0000u8, 0b0100_0000];
    assert!(!s.draw(10, 5, &sprite));
    assert_eq!(lit(&s), vec![(10, 5), (12, 5), (11, 6)]);
    assert!(s.draw(10, 5, &sprite));
    assert!(s.refresh().iter().all(|p| !p));
}

#[test]
fn empty_sprite_never_collides() {
    let mut s = Screen::new();
    assert!(!s.draw(0, 0, &[0, 0]));
    assert!(!s.draw(0, 0, &[0, 0]));
    assert!(!s.draw(3, 3, &[]));
    assert!(lit(&s).is_empty());
}

#[test]
fn collision_needs_a_shared_pixel() {
    let mut s = Screen::new();
    assert!(!s.draw(0, 0, &[0b1000_0000]));
    assert!(!s.draw(1, 0, &[0b1000_0000]));
    assert!(s.draw(0, 0, &[0b1100_0000]));
    assert!(lit(&s).is_empty());
}

#[test]
fn anchor_wraps_into_the_grid() {
    let mut s = Screen::new();
    s.draw(64 + 3, 32 + 2, &[0b1000_0000]);
    assert_eq!(lit(&s), vec![(3, 2)]);
}

#[test]
fn right_edge_clips() {
    let mut s = Screen::new();
    s.draw(60, 0, &[0xFF]);
    assert_eq!(lit(&s), vec![(60, 0), (61, 0), (62, 0), (63, 0)]);
}

#[test]
fn bottom_edge_clips() {
    let mut s = Screen::new();
    s.draw(0, 30, &[0x80, 0x80, 0x80, 0x80]);
    assert_eq!(lit(&s), vec![(0, 30), (0, 31)]);
}

#[test]
fn corner_clips_both_ways() {
    let mut s = Screen::new();
    s.draw(63, 31, &[0xFF, 0xFF]);
    assert_eq!(lit(&s), vec![(63, 31)]);
}

#[test]
fn clear_unlights_everything() {
    let mut s = Screen::new();
    s.draw(5, 5, &[0xFF, 0xFF, 0xFF]);
    s.clear();
    let grid = s.refresh();
    assert_eq!(grid.len(), 2048);
    assert!(grid.iter().all(|p| !p));
}

#[test]
fn refresh_is_row_major() {
    let mut s = Screen::new();
    s.draw(2, 1, &[0x80]);
    let grid = s.refresh();
    assert!(grid[64 + 2]);
    assert_eq!(grid.iter().filter(|p| **p).count(), 1);
}

#[test]
fn rasterize_white_on_black() {
    let mut s = Screen::new();
    s.draw(1, 0, &[0x80]);
    let rgba = s.rasterize();
    assert_eq!(rgba.len(), 4 * 2048);
    assert_eq!(&rgba[0..8], &[0, 0, 0, 0xFF, 0xFF, 0xFF, 0xFF, 0xFF]);
    assert_eq!(&rgba[8..12], &[0, 0, 0, 0xFF]);
}
