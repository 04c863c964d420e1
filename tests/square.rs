use billiard_bem::square::square_lattice;

#[test]
fn four_nodes_sit_at_side_midpoints() {
    let l = square_lattice(4);
    assert_eq!(l.x, vec![1, 2, 1, 0]);
    assert_eq!(l.y, vec![0, 1, 2, 1]);
    assert_eq!(l.nx, vec![0, 1, 0, -1]);
    assert_eq!(l.ny, vec![-1, 0, 1, 0]);
    assert_eq!(l.w, vec![2, 2, 2, 2]);
    assert_eq!(l.s, vec![1, 3, 5, 7]);
    assert_eq!(l.l_total, 8);
}

#[test]
fn eight_nodes_two_per_side() {
    let l = square_lattice(8);
    assert_eq!(l.x, vec![1, 3, 4, 4, 3, 1, 0, 0]);
    assert_eq!(l.y, vec![0, 0, 1, 3, 4, 4, 3, 1]);
    assert_eq!(l.nx, vec![0, 0, 1, 1, 0, 0, -1, -1]);
    assert_eq!(l.ny, vec![-1, -1, 0, 0, 1, 1, 0, 0]);
    assert_eq!(l.s, vec![1, 3, 5, 7, 9, 11, 13, 15]);
    assert_eq!(l.l_total, 16);
}

#[test]
fn nodes_are_evenly_spaced_by_their_weight() {
    let l = square_lattice(24);
    assert_eq!(l.s.len(), 24);
    for i in 0..23 {
        assert_eq!(l.s[i + 1] - l.s[i], l.w[i]);
    }
    assert_eq!(l.s[23] + l.w[23] / 2, l.l_total);
}

#[test]
fn distinct_nodes_never_coincide() {
    let l = square_lattice(24);
    let mut closest = i64::MAX;
    for i in 0..24 {
        for j in 0..24 {
            if i != j {
                let dx = l.x[i] as i64 - l.x[j] as i64;
                let dy = l.y[i] as i64 - l.y[j] as i64;
                closest = closest.min(dx * dx + dy * dy);
            }
        }
    }
    assert_eq!(closest, 2);
}

#[test]
fn normals_are_outward_unit_vectors() {
    let l = square_lattice(12);
    let side = 6usize;
    for i in 0..12 {
        let (nx, ny) = (l.nx[i], l.ny[i]);
        assert_eq!(nx * nx + ny * ny, 1);
        if ny == -1 {
            assert_eq!(l.y[i], 0);
        }
        if nx == 1 {
            assert_eq!(l.x[i], side);
        }
        if ny == 1 {
            assert_eq!(l.y[i], side);
        }
        if nx == -1 {
            assert_eq!(l.x[i], 0);
        }
    }
}
