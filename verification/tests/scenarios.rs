use sim::q12p4::Q12p4;
use sim::q16p16::Q16p16;
use sim::q24p4::Q24p4;
use sim::raster::Fragment;
use sim::raster::Gpu;
use sim::raster::RasterError;
use sim::raster::Vertex;
use sim::walk::rasterise;

fn corner(x: i16, y: i16, z: i16) -> Vertex {
    Vertex { x: Q12p4(x), y: Q12p4(y), z: Q12p4(z), red: 0, green: 0, blue: 0 }
}

fn lower_left() -> (Vertex, Vertex, Vertex) {
    (corner(0x0949, 0x0449, 16), corner(0x1EB6, 0x19B6, 32), corner(0x0949, 0x19B6, 16))
}

fn upper_right() -> (Vertex, Vertex, Vertex) {
    (corner(0x1EB6, 0x19B6, 32), corner(0x0949, 0x0449, 16), corner(0x1EB6, 0x0449, 32))
}

// Marks the pixels that the fragments cover on a 512 by 512 grid and counts
// those covered twice.
fn mark(frags: &Vec<Fragment>, grid: &mut Vec<u8>) -> usize {
    let mut twice = 0;
    for frag in frags {
        for i in 0..4 {
            if frag.valid[i] {
                let x = frag.x[i].truncate() as usize;
                let y = frag.y[i].truncate() as usize;
                if grid[512 * y + x] != 0 {
                    twice += 1;
                }
                grid[512 * y + x] += 1;
            }
        }
    }
    twice
}

#[test]
fn right_triangle_is_covered_once() {
    let (a, b, c) = lower_left();
    let g = Gpu::setup(a, b, c).unwrap();
    assert!(g.total_area.is_negative());
    assert_eq!(g.area_check(), Ok(()));
    let frags = rasterise(a, b, c).unwrap();
    assert_eq!(frags.len(), 29755);
    let mut grid = vec![0u8; 512 * 512];
    assert_eq!(mark(&frags, &mut grid), 0);
    let covered: usize = grid.iter().map(|&n| n as usize).sum();
    assert_eq!(covered, 58996);
    // The samples lie half a pixel from the corner of the bounding box and
    // whole pixels apart: one sixteenth into each pixel here. Every pixel
    // whose sample lies strictly inside the triangle is covered, and none
    // whose sample lies strictly outside.
    for py in 0..512i32 {
        for px in 0..512i32 {
            let x = Q12p4((16 * px + 1) as i16);
            let y = Q12p4((16 * py + 1) as i16);
            let ab = Q24p4::edge_function(a.x, a.y, b.x, b.y, x, y).0;
            let bc = Q24p4::edge_function(b.x, b.y, c.x, c.y, x, y).0;
            let ca = Q24p4::edge_function(c.x, c.y, a.x, a.y, x, y).0;
            let seen = grid[(512 * py + px) as usize];
            if ab < 0 && bc < 0 && ca < 0 {
                assert_eq!(seen, 1);
            }
            if ab > 0 || bc > 0 || ca > 0 {
                assert_eq!(seen, 0);
            }
        }
    }
}

#[test]
fn right_triangle_depth_grows_toward_the_far_corner() {
    let (a, b, c) = lower_left();
    let frags = rasterise(a, b, c).unwrap();
    let mut least = i16::MAX;
    let mut most = i16::MIN;
    for frag in &frags {
        if frag.valid != [false; 4] {
            least = least.min(frag.depth.0);
            most = most.max(frag.depth.0);
        }
    }
    assert_eq!(least, 256);
    assert_eq!(most, 512);
    // Along each row of quads the depth never falls from the near side (A, C
    // on the left) to the far corner B on the right.
    let mut rows: Vec<Vec<(i16, i16)>> = Vec::new();
    let mut row_y = i16::MIN;
    for frag in &frags {
        if frag.y[0].0 != row_y {
            row_y = frag.y[0].0;
            rows.push(Vec::new());
        }
        if frag.valid != [false; 4] {
            let last = rows.len() - 1;
            rows[last].push((frag.x[0].0, frag.depth.0));
        }
    }
    for mut row in rows {
        row.sort();
        for pair in row.windows(2) {
            assert!(pair[0].1 <= pair[1].1);
        }
    }
}

#[test]
fn two_triangles_tile_their_box() {
    let (a, b, c) = lower_left();
    let (d, e, f) = upper_right();
    let first = rasterise(a, b, c).unwrap();
    let second = rasterise(d, e, f).unwrap();
    assert!(Gpu::setup(d, e, f).unwrap().total_area.is_negative());
    let mut grid = vec![0u8; 512 * 512];
    assert_eq!(mark(&first, &mut grid), 0);
    assert_eq!(mark(&second, &mut grid), 0);
    let mut covered = 0;
    for py in 0..512usize {
        for px in 0..512usize {
            let inside = (149..=491).contains(&px) && (69..=411).contains(&py);
            assert_eq!(grid[512 * py + px], if inside { 1 } else { 0 });
            if inside {
                covered += 1;
            }
        }
    }
    assert_eq!(covered, 343 * 343);
}

#[test]
fn clockwise_triangle_covers_nothing() {
    let (a, b, c) = lower_left();
    let g = Gpu::setup(a, c, b).unwrap();
    assert!(g.total_area.is_positive());
    let frags = rasterise(a, c, b).unwrap();
    assert_eq!(frags.len(), 29755);
    for frag in frags {
        assert_eq!(frag.valid, [false; 4]);
    }
}

#[test]
fn collinear_triangle_covers_nothing() {
    let a = corner(0, 0, 16);
    let b = corner(160, 160, 16);
    let c = corner(320, 320, 16);
    let mut g = Gpu::setup(a, b, c).unwrap();
    assert!(g.total_area.is_zero());
    assert_eq!(g.area_check(), Err(RasterError::DegenerateTriangle));
    let mut steps = 0;
    while g.still_drawing() {
        let frag = g.step_rasteriser();
        assert_eq!(frag.valid, [false; 4]);
        steps += 1;
    }
    assert_eq!(steps, 109);
    assert!(!g.still_drawing());
    assert_eq!(rasterise(a, b, c).unwrap().len(), 109);
}

#[test]
fn collinear_triangle_on_one_point() {
    let a = corner(100, 100, 16);
    let mut g = Gpu::setup(a, a, a).unwrap();
    assert_eq!(g.area_check(), Err(RasterError::DegenerateTriangle));
    let frag = g.step_rasteriser();
    assert_eq!(frag.valid, [false; 4]);
    assert_eq!(frag.x[0], Q12p4(108));
    assert!(!g.still_drawing());
}

#[test]
fn small_triangle_covers_one_pixel() {
    let a = corner(178, 343, 16);
    let b = corner(196, 332, 16);
    let c = corner(176, 346, 16);
    let g = Gpu::setup(a, b, c).unwrap();
    assert_eq!(g.total_area, Q24p4(-2));
    let frags = rasterise(a, b, c).unwrap();
    assert_eq!(frags.len(), 1);
    let mut covered = Vec::new();
    for frag in &frags {
        for i in 0..4 {
            let ab = Q24p4::edge_function(a.x, a.y, b.x, b.y, frag.x[i], frag.y[i]);
            let bc = Q24p4::edge_function(b.x, b.y, c.x, c.y, frag.x[i], frag.y[i]);
            let ca = Q24p4::edge_function(c.x, c.y, a.x, a.y, frag.x[i], frag.y[i]);
            assert_eq!(frag.valid[i], g.covered(ab, bc, ca));
            if frag.valid[i] {
                covered.push((frag.x[i].truncate(), frag.y[i].truncate()));
            }
        }
    }
    assert_eq!(covered, vec![(11, 21)]);
}

#[test]
fn small_triangles_cover_one_pixel_at_most() {
    let mut ox: i16 = 0;
    while ox < 16 {
        let mut oy: i16 = 0;
        while oy < 16 {
            let a = corner(160 + ox + 12, 320 + oy, 16);
            let b = corner(160 + ox + 15, 320 + oy + 14, 16);
            let c = corner(160 + ox, 320 + oy + 9, 16);
            let g = Gpu::setup(a, b, c).unwrap();
            assert!(g.total_area.is_negative());
            let mut covered = 0;
            for frag in rasterise(a, b, c).unwrap() {
                for i in 0..4 {
                    let ab = Q24p4::edge_function(a.x, a.y, b.x, b.y, frag.x[i], frag.y[i]);
                    let bc = Q24p4::edge_function(b.x, b.y, c.x, c.y, frag.x[i], frag.y[i]);
                    let ca = Q24p4::edge_function(c.x, c.y, a.x, a.y, frag.x[i], frag.y[i]);
                    assert_eq!(frag.valid[i], ab.0 <= 0 && bc.0 <= 0 && ca.0 <= 0 && g.covered(ab, bc, ca));
                    if frag.valid[i] {
                        covered += 1;
                    }
                }
            }
            assert!(covered <= 1);
            oy += 1;
        }
        ox += 1;
    }
}

#[test]
fn box_of_one_quad_takes_one_step() {
    let a = corner(160, 160, 16);
    let b = corner(192, 192, 16);
    let c = corner(160, 192, 16);
    let mut g = Gpu::setup(a, b, c).unwrap();
    assert!(g.still_drawing());
    let first = g.step_rasteriser();
    assert_eq!(first.x, [Q12p4(168), Q12p4(184), Q12p4(168), Q12p4(184)]);
    assert_eq!(first.y, [Q12p4(168), Q12p4(168), Q12p4(184), Q12p4(184)]);
    assert_eq!(first.valid, [true, false, true, true]);
    assert_eq!(first.depth, Q16p16(256));
    assert_eq!((first.interp_a, first.interp_b, first.interp_c), (Q16p16(128), Q16p16(128), Q16p16(0)));
    assert!(!g.still_drawing());
    let state = g;
    let second = g.step_rasteriser();
    assert_eq!(second.valid, [false; 4]);
    assert_eq!(second.x, [Q12p4(200), Q12p4(184), Q12p4(200), Q12p4(184)]);
    assert_eq!(second.y, [Q12p4(200), Q12p4(200), Q12p4(216), Q12p4(216)]);
    assert_eq!(second.depth, Q16p16(0));
    assert_eq!((second.interp_a, second.interp_b, second.interp_c), (Q16p16(0), Q16p16(0), Q16p16(0)));
    assert!(!g.still_drawing());
    assert_eq!(g, state);
}

#[test]
fn depth_is_perspective_correct() {
    // A and C at depth one, B at depth four. The middle of the edge from A to
    // C is the centre of the quad at pixel (5, 5); the median runs from there
    // through (9, 9) to B at (13, 13).
    let a = corner(160, 0, 16);
    let b = corner(208, 208, 64);
    let c = corner(0, 160, 16);
    let g = Gpu::setup(a, b, c).unwrap();
    assert_eq!(g.total_area, Q24p4(-2560));
    assert_eq!((g.a_inv_z, g.b_inv_z, g.c_inv_z), (Q16p16(256), Q16p16(64), Q16p16(256)));
    let frags = rasterise(a, b, c).unwrap();
    assert_eq!(frags.len(), 55);
    let mut found = 0;
    for frag in frags {
        let centre = (frag.x[0].0 + 8, frag.y[0].0 + 8);
        if frag.x[1].0 < frag.x[0].0 {
            continue;
        }
        if centre == (80, 80) {
            assert_eq!(frag.depth, Q16p16(256));
            assert_eq!((frag.interp_a, frag.interp_b, frag.interp_c), (Q16p16(128), Q16p16(0), Q16p16(128)));
            found += 1;
        }
        if centre == (144, 144) {
            // 1 / (0.5 * 1 + 0.5 * 0.25) = 1.6
            assert_eq!(frag.depth, Q16p16(409));
            assert_eq!((frag.interp_a, frag.interp_b, frag.interp_c), (Q16p16(102), Q16p16(204), Q16p16(102)));
            found += 1;
        }
        if centre == (208, 208) {
            assert_eq!(frag.depth, Q16p16(1024));
            assert_eq!((frag.interp_a, frag.interp_b, frag.interp_c), (Q16p16(0), Q16p16(1024), Q16p16(0)));
            found += 1;
        }
    }
    assert_eq!(found, 3);
}

#[test]
fn flat_triangles_on_whole_pixels_cover_nothing() {
    let lines: [[(i16, i16); 3]; 6] = [
        [(0, 0), (160, 160), (320, 320)],
        [(320, 16), (160, 16), (0, 16)],
        [(48, 0), (48, 160), (48, 64)],
        [(0, 96), (64, 64), (192, 0)],
        [(-160, -160), (-160, -160), (160, 320)],
        [(16, 16), (16, 16), (16, 16)],
    ];
    for corners in lines {
        for order in [[0usize, 1, 2], [0, 2, 1], [1, 0, 2], [1, 2, 0], [2, 0, 1], [2, 1, 0]] {
            let a = corner(corners[order[0]].0, corners[order[0]].1, 16);
            let b = corner(corners[order[1]].0, corners[order[1]].1, 16);
            let c = corner(corners[order[2]].0, corners[order[2]].1, 16);
            assert_eq!(Gpu::setup(a, b, c).unwrap().area_check(), Err(RasterError::DegenerateTriangle));
            for frag in rasterise(a, b, c).unwrap() {
                assert_eq!(frag.valid, [false; 4]);
            }
        }
    }
}

#[test]
fn flat_triangle_off_the_pixels_may_cover_a_sample() {
    // Three corners on one line, between whole pixels: the roundings of the
    // edge functions let one sample pass.
    let a = corner(160, 160, 16);
    let b = corner(162, 167, 16);
    let c = corner(164, 174, 16);
    let g = Gpu::setup(a, b, c).unwrap();
    assert_eq!(g.area_check(), Err(RasterError::DegenerateTriangle));
    let frags = rasterise(a, b, c).unwrap();
    assert_eq!(frags.len(), 1);
    assert_eq!(frags[0].valid, [false, false, true, false]);
}

#[test]
fn triangles_in_one_pixel_take_one_quad_and_cover_one_sample_at_most() {
    let mut walked = 0;
    let mut ax: i16 = 0;
    while ax <= 16 {
        let mut ay: i16 = 0;
        while ay <= 16 {
            let mut bx: i16 = 0;
            while bx <= 16 {
                let mut by: i16 = 1;
                while by <= 16 {
                    let mut cx: i16 = 0;
                    while cx <= 16 {
                        let mut cy: i16 = 0;
                        while cy <= 16 {
                            let a = corner(163 + ax, 325 + ay, 16);
                            let b = corner(163 + bx, 325 + by, 16);
                            let c = corner(163 + cx, 325 + cy, 16);
                            let mut g = Gpu::setup(a, b, c).unwrap();
                            if g.total_area.is_negative() {
                                let state = g;
                                let frag = g.step_rasteriser();
                                assert!(!g.still_drawing());
                                let covered = frag.valid.iter().filter(|&&v| v).count();
                                assert!(covered <= 1);
                                assert_eq!(frag.valid, state.coverage());
                                walked += 1;
                            }
                            cy += 3;
                        }
                        cx += 2;
                    }
                    by += 3;
                }
                bx += 2;
            }
            ay += 3;
        }
        ax += 2;
    }
    assert!(walked > 50000);
}

#[test]
fn sliver_in_one_pixel_may_cover_the_next_sample() {
    // The one sample covered is the second of the quad, a pixel to the right
    // of the first: the roundings of the edge functions let it pass.
    let a = corner(162, 328, 16);
    let b = corner(171, 331, 16);
    let c = corner(172, 332, 16);
    let g = Gpu::setup(a, b, c).unwrap();
    assert_eq!(g.total_area, Q24p4(-1));
    let frags = rasterise(a, b, c).unwrap();
    assert_eq!(frags.len(), 1);
    assert_eq!(frags[0].valid, [false, true, false, false]);
    assert_eq!((frags[0].x[1].truncate(), frags[0].y[1].truncate()), (11, 21));
}

#[test]
fn depth_is_the_reciprocal_of_the_weighted_reciprocals() {
    for (a, b, c) in [lower_left(), upper_right(), (corner(160, 0, 16), corner(208, 208, 64), corner(0, 160, 16))] {
        let mut g = Gpu::setup(a, b, c).unwrap();
        let low = g.a_inv_z.0.min(g.b_inv_z.0).min(g.c_inv_z.0) as i32;
        let high = g.a_inv_z.0.max(g.b_inv_z.0).max(g.c_inv_z.0) as i32;
        let mut seen = 0;
        while g.still_drawing() {
            let (wa, wb, wc) = g.weights();
            let exact = wa.0 as i32 * g.a_inv_z.0 as i32 + wb.0 as i32 * g.b_inv_z.0 as i32 + wc.0 as i32 * g.c_inv_z.0 as i32;
            let inverse = (wa * g.a_inv_z).wrapping_add(wb * g.b_inv_z).wrapping_add(wc * g.c_inv_z);
            let frag = g.step_rasteriser();
            assert_eq!(frag.depth, Q16p16::one() / inverse);
            let inv = inverse.0 as i32;
            let sum = wa.0 as i32 + wb.0 as i32 + wc.0 as i32;
            if wa.0 >= 0 && wb.0 >= 0 && wc.0 >= 0 && (255..=257).contains(&sum) {
                assert!(exact - 765 <= 256 * inv && 256 * inv <= exact);
                assert!(255 * low - 765 <= 256 * inv && 256 * inv <= 257 * high);
                let depth = frag.depth.0 as i32;
                assert!(depth * inv <= 65536 && 65536 < (depth + 1) * inv);
                seen += 1;
            }
        }
        assert!(seen > 20);
    }
}
