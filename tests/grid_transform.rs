use grid_transform::{chunk_len, fill_chunk, Grid, GridError, SeedSequence};
use std::sync::atomic::{AtomicUsize, Ordering};

fn seeded(rows: usize, cols: usize) -> Grid<usize> {
    Grid::new(rows, cols).expect("valid dimensions")
}

#[test]
fn seed_sequence_counts_one_to_ten() {
    let mut s = SeedSequence::new(10);
    let mut got = Vec::new();
    while let Some(v) = s.next() {
        got.push(v);
    }
    assert_eq!(got, (1..=10).collect::<Vec<usize>>());
    assert_eq!(s.next(), None);
    s.restart();
    assert_eq!(s.next(), Some(1));
}

#[test]
fn seed_sequence_empty() {
    let mut s = SeedSequence::new(0);
    assert_eq!(s.next(), None);
}

#[test]
fn new_seeds_ascending_from_one() {
    let g = seeded(1000, 1000);
    assert_eq!(g.rows(), 1000);
    assert_eq!(g.cols(), 1000);
    assert_eq!(g.len(), 1_000_000);
    assert_eq!(*g.get(0), 1);
    assert_eq!(*g.get(999_999), 1_000_000);
    let small = seeded(2, 3).into_cells();
    assert_eq!(small, vec![1, 2, 3, 4, 5, 6]);
}

#[test]
fn invalid_construction() {
    assert_eq!(Grid::new(0, 5).err(), Some(GridError::InvalidDimensions));
    assert_eq!(Grid::new(5, 0).err(), Some(GridError::InvalidDimensions));
    assert_eq!(Grid::new(usize::MAX, 2).err(), Some(GridError::InvalidDimensions));
    assert_eq!(Grid::from_cells(0, 5, Vec::<u8>::new()).err(), Some(GridError::InvalidDimensions));
    assert_eq!(Grid::from_cells(2, 2, vec![1u8, 2, 3]).err(), Some(GridError::InvalidDimensions));
}

#[test]
fn from_cells_keeps_order() {
    let g = Grid::from_cells(2, 2, vec!['a', 'b', 'c', 'd']).unwrap();
    assert_eq!(*g.get_at(1, 0), 'c');
    assert_eq!(g.as_slice(), &['a', 'b', 'c', 'd']);
}

#[test]
fn invalid_worker_count() {
    let mut g = seeded(3, 4);
    let r = g.transform_parallel(|r, c| r * c, Some(0));
    assert_eq!(r, Err(GridError::InvalidWorkerCount));
    assert_eq!(g.as_slice(), &[1, 2, 3, 4, 5, 6, 7, 8, 9, 10, 11, 12]);
}

#[test]
fn index_mapping_formula() {
    let cols = 1000usize;
    let i = 345_678usize;
    assert_eq!(i / cols, 345);
    assert_eq!(i % cols, 678);
    let mut g = seeded(1000, 1000);
    g.transform_sequential(|r, c| r * c);
    assert_eq!(*g.get(i), 345 * 678);
    assert_eq!(*g.get_at(345, 678), 345 * 678);
    let mut p = seeded(1000, 1000);
    p.transform_parallel(|r, c| r * c, None).unwrap();
    assert_eq!(*p.get(i), 233_910);
}

#[test]
fn equivalence_of_modes() {
    for &rows in &[1usize, 2, 7, 1000] {
        for &cols in &[1usize, 2, 13, 1000] {
            let f = move |r: usize, c: usize| r * cols + c;
            let mut seq = seeded(rows, cols);
            seq.transform_sequential(f);
            let expected: Vec<usize> = (0..rows * cols).collect();
            assert_eq!(seq.as_slice(), expected.as_slice());
            for workers in [Some(1), Some(2), Some(8), None] {
                let mut par = seeded(rows, cols);
                par.transform_parallel(f, workers).unwrap();
                assert_eq!(par.as_slice(), seq.as_slice(), "{}x{} {:?}", rows, cols, workers);
            }
        }
    }
}

fn visit_counts(rows: usize, cols: usize, workers: Option<Option<usize>>) -> Vec<usize> {
    let counters: Vec<AtomicUsize> = (0..rows * cols).map(|_| AtomicUsize::new(0)).collect();
    let mut g = seeded(rows, cols);
    let f = |r: usize, c: usize| {
        counters[r * cols + c].fetch_add(1, Ordering::SeqCst);
        0usize
    };
    match workers {
        None => g.transform_sequential(f),
        Some(w) => g.transform_parallel(f, w).unwrap(),
    }
    counters.iter().map(|a| a.load(Ordering::SeqCst)).collect()
}

#[test]
fn every_index_visited_once() {
    for &(rows, cols) in &[(1usize, 1usize), (7, 13), (1000, 13), (3, 1000)] {
        for mode in [None, Some(Some(1)), Some(Some(3)), Some(Some(8)), Some(None)] {
            let counts = visit_counts(rows, cols, mode);
            assert!(counts.iter().all(|&n| n == 1), "{}x{} {:?}", rows, cols, mode);
        }
    }
}

#[test]
fn single_cell_grid() {
    let mut a = seeded(1, 1);
    a.transform_sequential(|r, c| r + c + 7);
    assert_eq!(a.as_slice(), &[7]);
    let mut b = seeded(1, 1);
    b.transform_parallel(|r, c| r + c + 7, Some(4)).unwrap();
    assert_eq!(b.as_slice(), &[7]);
}

#[test]
fn single_row_and_single_column() {
    let mut row = seeded(1, 1000);
    row.transform_parallel(|r, c| r * 10_000 + c, Some(8)).unwrap();
    assert_eq!(*row.get(999), 999);
    assert_eq!(*row.get(0), 0);
    let mut col = seeded(1000, 1);
    col.transform_sequential(|r, c| r * 10_000 + c);
    assert_eq!(*col.get(999), 9_990_000);
    assert_eq!(*col.get_at(500, 0), 5_000_000);
}

#[test]
fn end_to_end_row_times_col() {
    let mut g = seeded(1000, 1000);
    assert_eq!(*g.get(0), 1);
    assert_eq!(*g.get(999_999), 1_000_000);
    g.transform_sequential(|r, c| r * c);
    assert_eq!(*g.get(0), 0);
    assert_eq!(*g.get(1), 0);
    assert_eq!(*g.get(1000), 0);
    assert_eq!(*g.get(1001), 1);
    assert_eq!(*g.get(999_999), 998_001);
}

#[test]
fn chunk_len_values() {
    assert_eq!(chunk_len(10, 3), 4);
    assert_eq!(chunk_len(9, 3), 3);
    assert_eq!(chunk_len(5, 8), 1);
    assert_eq!(chunk_len(0, 4), 1);
    assert_eq!(chunk_len(1_000_000, 8), 125_000);
}

#[test]
fn fill_chunk_uses_chunk_offset() {
    // a 3 by 4 grid in chunks of 4: chunk 1 is the second row
    let f = |r: usize, c: usize| r * 100 + c;
    let mut chunk = vec![0usize; 4];
    fill_chunk(&f, 3, 4, 4, 1, &mut chunk);
    assert_eq!(chunk, vec![100, 101, 102, 103]);
    let mut tail = vec![0usize; 3];
    fill_chunk(&f, 3, 4, 5, 1, &mut tail);
    assert_eq!(tail, vec![101, 102, 103]);
}
