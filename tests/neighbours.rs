use wator::topology::find_neighbours;

#[test]
fn test_neighbour() {
    // 0 1 2
    // 3 4 5
    // 6 7 8
    let world = vec![0, 1, 2, 3, 4, 5, 6, 7, 8];
    let res = vec![
        vec![(1, &1), (3, &3)],                   // 0
        vec![(0, &0), (2, &2), (4, &4)],          // 1
        vec![(1, &1), (5, &5)],                   // 2
        vec![(4, &4), (0, &0), (6, &6)],          // 3
        vec![(3, &3), (5, &5), (1, &1), (7, &7)], // 4
        vec![(4, &4), (2, &2), (8, &8)],          // 5
        vec![(7, &7), (3, &3)],                   // 6
        vec![(6, &6), (8, &8), (4, &4)],          // 7
        vec![(7, &7), (5, &5)],                   // 8
    ];
    for i in 0..9 {
        let n = find_neighbours(&world, 3, i, false);
        assert_eq!(res[i], n);
    }
}

#[test]
fn test_neighbour_wrap() {
    // 0 1 2
    // 3 4 5
    // 6 7 8
    let world = vec![0, 1, 2, 3, 4, 5, 6, 7, 8];
    let res = vec![
        vec![(2, &2), (1, &1), (6, &6), (3, &3)], // 0
        vec![(0, &0), (2, &2), (7, &7), (4, &4)], // 1
        vec![(1, &1), (0, &0), (8, &8), (5, &5)], // 2
        vec![(5, &5), (4, &4), (0, &0), (6, &6)], // 3
        vec![(3, &3), (5, &5), (1, &1), (7, &7)], // 4
        vec![(4, &4), (3, &3), (2, &2), (8, &8)], // 5
        vec![(8, &8), (7, &7), (3, &3), (0, &0)], // 6
        vec![(6, &6), (8, &8), (4, &4), (1, &1)], // 7
        vec![(7, &7), (6, &6), (5, &5), (2, &2)], // 8
    ];
    for i in 0..9 {
        let n = find_neighbours(&world, 3, i, true);
        assert_eq!(res[i], n);
    }
}

#[test]
fn neighbour_counts_without_wrap() {
    let world = vec![0u8; 9];
    let counts: Vec<usize> = (0..9).map(|i| find_neighbours(&world, 3, i, false).len()).collect();
    assert_eq!(counts, vec![2, 3, 2, 3, 4, 3, 2, 3, 2]);
}

#[test]
fn neighbours_only_orthogonal() {
    let world = vec![0u8; 9];
    for i in 0..9usize {
        for (j, _) in find_neighbours(&world, 3, i, false) {
            let dr = (i / 3).abs_diff(j / 3);
            let dc = (i % 3).abs_diff(j % 3);
            assert_eq!(dr + dc, 1);
        }
    }
}

#[test]
fn wrap_corner_targets_opposite_edges() {
    let world = vec![0, 1, 2, 3, 4, 5, 6, 7, 8];
    let n = find_neighbours(&world, 3, 0, true);
    assert_eq!(n[0].0, 2);
    assert_eq!(n[2].0, 6);
}

#[test]
fn neighbours_repeat_identically() {
    let world = vec![10, 11, 12, 13, 14, 15];
    for i in 0..6 {
        for wrap in [false, true] {
            assert_eq!(find_neighbours(&world, 3, i, wrap), find_neighbours(&world, 3, i, wrap));
        }
    }
}

#[test]
fn wrap_on_single_column() {
    let world = vec![7, 8];
    let n = find_neighbours(&world, 1, 0, true);
    assert_eq!(n, vec![(0, &7), (0, &7), (1, &8), (1, &8)]);
}
