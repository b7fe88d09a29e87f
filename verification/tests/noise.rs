use caustic::noise::{generate_perm, permute, slot_of, Lattice, POINT_COUNT};

/// Targets as a source of numbers would give them: for the place `i`, from
/// 254 down to 1, a number between 0 and `i`.
fn targets(seed: u64) -> Vec<i64> {
    let mut state = seed;
    (1..POINT_COUNT - 1)
        .rev()
        .map(|i| {
            state = state.wrapping_mul(6364136223846793005).wrapping_add(1442695040888963407);
            ((state >> 33) % (i as u64 + 1)) as i64
        })
        .collect()
}

fn assert_is_permutation(p: &[usize; 256]) {
    let mut sorted = p.to_vec();
    sorted.sort_unstable();
    for (i, &val) in sorted.iter().enumerate() {
        assert_eq!(i, val, "Permutation table should contain each index exactly once");
    }
}

#[test]
fn test_perlin_creation() {
    let lattice = Lattice::new(&targets(1914), &targets(1915), &targets(1916));

    // Just verify it can be created without panicking
    assert_eq!(lattice.perm_x().len(), 256);
    assert_eq!(lattice.perm_y().len(), 256);
    assert_eq!(lattice.perm_z().len(), 256);
}

#[test]
fn test_permutation_tables_are_permutations() {
    let lattice = Lattice::new(&targets(1), &targets(2), &targets(3));
    for perm in [lattice.perm_x(), lattice.perm_y(), lattice.perm_z()] {
        assert_is_permutation(perm);
    }
}

#[test]
fn test_targets_outside_their_interval_still_give_a_permutation() {
    let all_last: Vec<i64> = vec![255; 254];
    assert_is_permutation(&generate_perm(&all_last));
    let all_first: Vec<i64> = vec![0; 254];
    assert_is_permutation(&generate_perm(&all_first));
}

#[test]
fn test_shuffle_by_hand() {
    // every place exchanged with itself: nothing moves
    let stay: Vec<i64> = (1..255).rev().collect();
    let p = generate_perm(&stay);
    for i in 0..256 {
        assert_eq!(p[i], i);
    }
    // every place exchanged with place 0: the entries move down by one
    let p = generate_perm(&vec![0; 254]);
    assert_eq!(p[0], 1);
    assert_eq!(p[254], 0);
    assert_eq!(p[255], 255);
    for i in 1..254 {
        assert_eq!(p[i], i + 1);
    }
}

#[test]
fn test_permute_in_place() {
    let mut p = [0usize; 256];
    for i in 0..256 {
        p[i] = 255 - i;
    }
    let mut steps: Vec<i64> = (1..255).rev().collect();
    steps[0] = 3; // place 254 exchanged with place 3
    permute(&steps, &mut p);
    assert_eq!(p[254], 252);
    assert_eq!(p[3], 1);
    assert_eq!(p[0], 255);
    assert_eq!(p[255], 0);
    assert_is_permutation(&p);
}

#[test]
fn test_same_targets_same_tables() {
    let a = Lattice::new(&targets(7), &targets(8), &targets(9));
    let b = Lattice::new(&targets(7), &targets(8), &targets(9));
    assert_eq!(a.perm_x(), b.perm_x());
    assert_eq!(a.perm_y(), b.perm_y());
    assert_eq!(a.perm_z(), b.perm_z());
    for (i, j, k) in [(0, 0, 0), (1, 2, 3), (-1, -300, 70000), (i64::MAX, i64::MIN, 255)] {
        assert_eq!(a.corners(i, j, k), b.corners(i, j, k));
        assert_eq!(a.cell(i, j, k), b.cell(i, j, k));
    }
}

#[test]
fn test_slots() {
    assert_eq!(slot_of(0, 0), 0);
    assert_eq!(slot_of(0, 1), 1);
    assert_eq!(slot_of(255, 0), 255);
    assert_eq!(slot_of(255, 1), 0);
    assert_eq!(slot_of(256, 0), 0);
    assert_eq!(slot_of(1000, 1), 233);
    assert_eq!(slot_of(-1, 0), 255);
    assert_eq!(slot_of(-1, 1), 0);
    assert_eq!(slot_of(-256, 0), 0);
    assert_eq!(slot_of(-257, 0), 255);
    assert_eq!(slot_of(i64::MIN, 0), 0);
    assert_eq!(slot_of(i64::MAX, 0), 255);
    assert_eq!(slot_of(i64::MAX, 1), 0);
}

#[test]
fn test_corners_hash_into_the_table() {
    let lattice = Lattice::new(&targets(4), &targets(5), &targets(6));
    let (px, py, pz) = (lattice.perm_x(), lattice.perm_y(), lattice.perm_z());
    for (i, j, k) in [(0i64, 0i64, 0i64), (10, 20, 30), (-1, -2, -3), (255, 511, -256)] {
        let corners = lattice.corners(i, j, k);
        for di in 0..2usize {
            for dj in 0..2usize {
                for dk in 0..2usize {
                    let expected = px[((i + di as i64) & 255) as usize]
                        ^ py[((j + dj as i64) & 255) as usize]
                        ^ pz[((k + dk as i64) & 255) as usize];
                    assert_eq!(corners[di][dj][dk], expected);
                    assert!(corners[di][dj][dk] < 256);
                    assert_eq!(
                        lattice.corner(i, j, k, di as i64, dj as i64, dk as i64),
                        expected
                    );
                }
            }
        }
        assert_eq!(lattice.cell(i, j, k), corners[0][0][0]);
    }
}
