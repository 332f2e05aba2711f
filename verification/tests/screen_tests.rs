use winbend::screen::{dark_component, dark_levels, screen_region};

/// A grid of `w` x `h` cells, all at `v`.
fn grid(w: usize, h: usize, v: u8) -> Vec<u8> {
    vec![v; w * h]
}

fn fill(level: &mut [u8], w: usize, x0: usize, y0: usize, x1: usize, y1: usize, v: u8) {
    for y in y0..y1 {
        for x in x0..x1 {
            level[y * w + x] = v;
        }
    }
}

fn sorted(mut px: Vec<(u32, u32)>) -> Vec<(u32, u32)> {
    px.sort();
    px
}

#[test]
fn central_dark_block_is_the_screen() {
    let (w, h) = (20, 10);
    let mut level = grid(w, h, 200);
    fill(&mut level, w, 6, 3, 14, 7, 10);
    let px = screen_region(&level, w as u32, h as u32, 46, 150).unwrap();
    assert_eq!(px.len(), 32);
    let mut expected = Vec::new();
    for y in 3..7 {
        for x in 6..14 {
            expected.push((x, y));
        }
    }
    assert_eq!(sorted(px), sorted(expected));
}

#[test]
fn region_grows_through_grey_reflections_only() {
    let (w, h) = (20, 10);
    let mut level = grid(w, h, 200);
    fill(&mut level, w, 6, 3, 14, 7, 10);
    // A grey reflection inside the panel joins; a grey strip across the light deck does not,
    // because it is not connected to the panel.
    fill(&mut level, w, 8, 4, 10, 5, 120);
    fill(&mut level, w, 0, 9, 20, 10, 120);
    let px = screen_region(&level, w as u32, h as u32, 46, 150).unwrap();
    assert_eq!(px.len(), 32);
    assert!(px.contains(&(8, 4)) && px.contains(&(9, 4)));
    assert!(!px.iter().any(|&(_, y)| y == 9));
}

#[test]
fn first_of_equal_regions_wins_and_more_seeds_win() {
    let (w, h) = (30, 10);
    let mut level = grid(w, h, 200);
    fill(&mut level, w, 8, 3, 12, 6, 10);
    fill(&mut level, w, 16, 3, 20, 6, 10);
    let px = screen_region(&level, w as u32, h as u32, 46, 150).unwrap();
    assert!(px.iter().all(|&(x, _)| (8..12).contains(&x)));
    // Now the right block has more seed cells.
    fill(&mut level, w, 16, 6, 20, 7, 10);
    let px = screen_region(&level, w as u32, h as u32, 46, 150).unwrap();
    assert_eq!(px.len(), 16);
    assert!(px.iter().all(|&(x, _)| (16..20).contains(&x)));
}

#[test]
fn off_centre_or_huge_regions_are_not_screens() {
    let (w, h) = (20, 10);
    let mut level = grid(w, h, 200);
    fill(&mut level, w, 0, 0, 2, 10, 10); // hugging the left edge: centre at 5 % of the width
    assert!(screen_region(&level, w as u32, h as u32, 46, 150).is_none());
    let dark = grid(w, h, 10); // the whole frame
    assert!(screen_region(&dark, w as u32, h as u32, 46, 150).is_none());
    let light = grid(w, h, 200);
    assert!(screen_region(&light, w as u32, h as u32, 46, 150).is_none());
}

#[test]
fn too_few_seed_cells_are_not_a_screen() {
    // 1000 x 10 cells: 30 seed cells make 0.3 %, 29 do not.
    let (w, h) = (1000, 10);
    let mut level = grid(w, h, 200);
    fill(&mut level, w, 485, 4, 515, 5, 10);
    assert_eq!(screen_region(&level, w as u32, h as u32, 46, 150).map(|p| p.len()), Some(30));
    level[4 * w + 514] = 100; // still grows, no longer a seed
    assert!(screen_region(&level, w as u32, h as u32, 46, 150).is_none());
}

#[test]
fn empty_grid_has_no_screen() {
    assert!(screen_region(&[], 0, 0, 46, 150).is_none());
}

fn image(width: usize, height: usize, rgb: [u8; 3]) -> Vec<u8> {
    let mut v = Vec::with_capacity(width * height * 3);
    for _ in 0..width * height {
        v.extend_from_slice(&rgb);
    }
    v
}

#[test]
fn darkness_is_the_brightest_channel() {
    let mut img = image(4, 2, [10, 20, 30]);
    img[3..6].copy_from_slice(&[200, 5, 5]);
    let g = dark_levels(&img, 4, 2, None);
    assert_eq!((g.w, g.h, g.scale), (4, 2, 1));
    assert_eq!(g.level, vec![30, 200, 30, 30, 30, 30, 30, 30]);
}

#[test]
fn large_frames_are_averaged_in_cells() {
    // 2800 pixels wide: two pixels per cell side, each cell the mean of four pixels.
    let (width, height) = (2800usize, 4usize);
    let mut img = image(width, height, [0, 0, 0]);
    for (x, y, v) in [(0, 0, 40u8), (1, 0, 40), (0, 1, 40), (1, 1, 43)] {
        let p = 3 * (y * width + x);
        img[p] = v;
    }
    let g = dark_levels(&img, width as u32, height as u32, None);
    assert_eq!((g.w, g.h, g.scale), (1400, 2, 2));
    assert_eq!(g.level[0], 40);
    assert_eq!(g.level[1], 0);
}

#[test]
fn rows_below_the_hinge_are_never_dark() {
    let img = image(3, 4, [0, 0, 0]);
    let g = dark_levels(&img, 3, 4, Some(2));
    assert_eq!(g.level, vec![0, 0, 0, 0, 0, 0, 255, 255, 255, 255, 255, 255]);
}

#[test]
fn screen_in_a_frame() {
    let (width, height) = (20usize, 10usize);
    let mut img = image(width, height, [180, 190, 200]);
    for y in 3..7 {
        for x in 6..14 {
            let p = 3 * (y * width + x);
            img[p..p + 3].copy_from_slice(&[5, 5, 5]);
        }
    }
    let (px, scale) = dark_component(&img, width as u32, height as u32, 46, 150, None).unwrap();
    assert_eq!(scale, 1);
    assert_eq!(px.len(), 32);
    // With the hinge line through the screen, only its upper part counts.
    let (px, _) = dark_component(&img, width as u32, height as u32, 46, 150, Some(5)).unwrap();
    assert_eq!(px.len(), 16);
}
