use verlet_pool::SpatialHash;

fn sorted(mut v: Vec<usize>) -> Vec<usize> {
    v.sort();
    v
}

#[test]
fn new_hash_has_requested_shape_and_empty_cells() {
    let h = SpatialHash::new(3, 4);
    assert_eq!(h.rows(), 3);
    assert_eq!(h.cols(), 4);
    for r in 0..3 {
        for c in 0..4 {
            assert!(h.cell(r, c).is_empty());
        }
    }
    assert!(h.indices().is_empty());
}

#[test]
fn hash_files_index_in_its_cell_only() {
    let mut h = SpatialHash::new(3, 3);
    h.hash(1, 2, 7);
    h.hash(1, 2, 9);
    assert_eq!(h.cell(1, 2), &vec![7, 9]);
    assert!(h.cell(2, 1).is_empty());
    assert!(h.cell(0, 0).is_empty());
}

#[test]
fn hash_out_of_grid_is_dropped() {
    let mut h = SpatialHash::new(3, 3);
    h.hash(-1, 0, 1);
    h.hash(0, -1, 2);
    h.hash(3, 0, 3);
    h.hash(0, 3, 4);
    assert!(h.indices().is_empty());
}

#[test]
fn clear_empties_every_cell() {
    let mut h = SpatialHash::new(2, 2);
    h.hash(0, 0, 1);
    h.hash(1, 1, 2);
    h.clear();
    assert!(h.indices().is_empty());
    assert_eq!(h.rows(), 2);
    assert_eq!(h.cols(), 2);
}

#[test]
fn indices_reads_cells_in_row_major_order() {
    let mut h = SpatialHash::new(2, 2);
    h.hash(1, 1, 4);
    h.hash(0, 1, 3);
    h.hash(1, 0, 2);
    h.hash(0, 0, 1);
    h.hash(0, 1, 5);
    assert_eq!(h.indices(), vec![1, 3, 5, 2, 4]);
}

#[test]
fn rebuild_replaces_previous_contents() {
    let mut h = SpatialHash::new(3, 3);
    h.hash(2, 2, 99);
    h.rebuild(&vec![(0, 0), (2, 1), (0, 0), (5, 5)]);
    assert_eq!(h.cell(0, 0), &vec![0, 2]);
    assert_eq!(h.cell(2, 1), &vec![1]);
    assert!(h.cell(2, 2).is_empty());
    assert_eq!(sorted(h.indices()), vec![0, 1, 2]);
}

#[test]
fn coverage_of_distinct_cells_keeps_every_index_once() {
    let mut h = SpatialHash::new(5, 5);
    let coords = vec![(0, 0), (4, 4), (2, 3), (1, 0), (3, 2), (0, 4)];
    h.rebuild(&coords);
    let all = h.indices();
    assert_eq!(all.len(), 6);
    assert_eq!(sorted(all), vec![0, 1, 2, 3, 4, 5]);
}

#[test]
fn candidate_pairs_of_single_centre() {
    let mut h = SpatialHash::new(3, 3);
    h.rebuild(&vec![(1, 1), (0, 0), (1, 2), (1, 1)]);
    assert_eq!(
        h.candidate_pairs(),
        vec![(0, 1), (3, 1), (0, 3), (3, 0), (0, 2), (3, 2)]
    );
}

#[test]
fn candidate_pairs_revisit_a_pair_from_both_centres() {
    let mut h = SpatialHash::new(4, 4);
    h.rebuild(&vec![(1, 1), (1, 2)]);
    assert_eq!(h.candidate_pairs(), vec![(0, 1), (1, 0)]);
}

#[test]
fn candidate_pairs_skip_edge_centres() {
    let mut h = SpatialHash::new(3, 3);
    h.rebuild(&vec![(0, 0), (0, 1)]);
    assert!(h.candidate_pairs().is_empty());
    let mut thin = SpatialHash::new(2, 5);
    thin.rebuild(&vec![(0, 1), (1, 1)]);
    assert!(thin.candidate_pairs().is_empty());
}
