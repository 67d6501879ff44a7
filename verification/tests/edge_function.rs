use sim::q12p4::Q12p4;
use sim::q24p4::Q24p4;

fn edge(ax: i16, ay: i16, bx: i16, by: i16, px: i16, py: i16) -> i32 {
    Q24p4::edge_function(Q12p4(ax), Q12p4(ay), Q12p4(bx), Q12p4(by), Q12p4(px), Q12p4(py)).0
}

#[test]
fn edge_function_of_a_right_triangle() {
    // A at (0, 0), B at (2, 2), C at (0, 2), in pixels: twice the area is -4.
    assert_eq!(edge(0, 0, 32, 32, 0, 32), -64);
    assert_eq!(edge(0, 0, 32, 32, 32, 0), 64);
    assert_eq!(edge(0, 0, 32, 32, 16, 16), 0);
}

#[test]
fn edge_function_rounds_each_product_down() {
    assert_eq!(edge(0, 0, 0, 5, 7, 0), 2);
    assert_eq!(edge(0, 5, 0, 0, 7, 0), -3);
    assert_eq!(edge(0, 0, 3, -1, 1, 5), -1);
    assert_eq!(edge(0x0949, 0x0449, 0x1EB6, 0x19B6, 0x0949, 0x19B6), -1880326);
}

#[test]
fn edge_function_changes_sign_with_the_edge_on_whole_pixels() {
    let points: [(i16, i16); 5] = [(0, 0), (160, -48), (-320, 16), (1600, 2400), (-16, -16)];
    for a in points {
        for b in points {
            for p in [(8i16, 8i16), (24, -40), (-1592, 2408), (168, 1000)] {
                assert_eq!(edge(a.0, a.1, b.0, b.1, p.0, p.1), -edge(b.0, b.1, a.0, a.1, p.0, p.1));
            }
        }
    }
}

#[test]
fn edge_function_may_miss_its_mirror_by_the_rounding() {
    let there = edge(0, 0, 0, 5, 7, 0);
    let back = edge(0, 5, 0, 0, 7, 0);
    assert_eq!(there + back, -1);
}

#[test]
fn edge_function_moves_by_whole_increments_over_whole_pixels() {
    let (ax, ay, bx, by) = (37i16, -11i16, 205i16, 333i16);
    let first = edge(ax, ay, bx, by, 45, -3);
    let mut k: i16 = -3;
    while k <= 3 {
        let mut j: i16 = -3;
        while j <= 3 {
            let there = edge(ax, ay, bx, by, 45 + 16 * k, -3 + 16 * j);
            assert_eq!(there, first + (k as i32) * ((by - ay) as i32) + (j as i32) * ((ax - bx) as i32));
            j += 1;
        }
        k += 1;
    }
}
