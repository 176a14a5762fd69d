use select_indices::{par_select_indices, resolve_indices, Grid, SelectError};

fn grid(rows: usize, cols: usize, cells: Vec<i32>) -> Grid<i32> {
    Grid::from_vec(rows, cols, cells).unwrap()
}

#[test]
fn ndarray_select_indices_test() {
    let data = grid(3, 5, vec![0, 0, 2, 0, 0, 0, 1, 0, 3, 0, 0, 0, 4, 5, 0]);

    let indices = [
        (1, 1), (0, 2),
        (1, 3), (2, 2),
        (2, 3), (2, 3),
        (2, 2), (1, 3),
        (0, 2), (1, 1),
    ];

    let got: Vec<i32> = data.select_indices(&indices).unwrap().into_iter().copied().collect();
    assert!(got == [1, 2, 3, 4, 5, 5, 4, 3, 2, 1])
}

#[test]
fn ndarray_out_of_range_panic() {
    let data = grid(3, 3, vec![1, 0, 0, 0, 2, 0, 0, 0, 3]);
    let indices = [(1, 1), (2, 2), (3, 3)];

    assert!(matches!(data.select_indices(&indices), Err(SelectError::OutOfBounds)));
}

#[test]
fn ndarray_indexed() {
    let data = grid(
        3,
        8,
        vec![
            11, 22, 33, 44, 55, 66, 77, 88, 99, 00, 11, 22, 33, 44, 55, 66, 77, 88, 99, 00, 11, 22, 33, 44,
        ],
    );

    let pairs = data.select_indices_indexed(&[(0, 4), (2, 7), (1, 3), (0, 0), (2, 3)]).unwrap();
    for (i, x) in &pairs {
        println!("data[{i:?}] = {x:02}");
    }
    let got: Vec<((usize, usize), i32)> = pairs.into_iter().map(|(i, x)| (i, *x)).collect();
    assert_eq!(got, vec![((0, 4), 55), ((2, 7), 44), ((1, 3), 22), ((0, 0), 11), ((2, 3), 00)]);
}

#[test]
fn par_immutable_indexed() {
    let data = grid(
        3,
        8,
        vec![
            11, 22, 33, 44, 55, 66, 77, 88, 99, 00, 11, 22, 33, 44, 55, 66, 77, 88, 99, 00, 11, 22, 33, 44,
        ],
    );

    let slots = resolve_indices(&data, &[(0, 4), (2, 7), (1, 3), (0, 0), (2, 3)]).unwrap();
    let pairs = par_select_indices(data.cells(), &slots).unwrap().indexed().collect(2);
    for (slot, x) in &pairs {
        println!("data[{:?}] = {:02}", (slot / 8, slot % 8), x);
    }
    let got: Vec<(usize, i32)> = pairs.into_iter().map(|(i, x)| (i, *x)).collect();
    assert_eq!(got, vec![(4, 55), (23, 44), (11, 22), (0, 11), (19, 00)]);
}

#[test]
fn ndarray_select_indices() {
    let mut data = grid(
        5,
        5,
        vec![0, 0, 9, 0, 0, 0, 0, 9, 0, 0, 0, 0, 9, 0, 0, 0, 0, 9, 0, 0, 0, 0, 9, 0, 0],
    );

    let indices = [(1, 2), (3, 2), (0, 2), (2, 2), (4, 2)];

    data.update_indices(&indices, 1, |pos, _slot, _old| pos as i32 + 1).unwrap();

    assert_eq!(
        data.cells(),
        [0, 0, 3, 0, 0, 0, 0, 1, 0, 0, 0, 0, 4, 0, 0, 0, 0, 2, 0, 0, 0, 0, 5, 0, 0]
    )
}

#[test]
fn mut_ndarray_out_of_range_panic() {
    let mut data = grid(3, 3, vec![1, 0, 0, 0, 2, 0, 0, 0, 3]);

    let indices = [(1, 1), (2, 2), (3, 3)];

    assert_eq!(data.update_indices(&indices, 1, |_p, _s, x| x + 1), Err(SelectError::OutOfBounds));
    assert_eq!(data.cells(), [1, 0, 0, 0, 2, 0, 0, 0, 3]);
}

#[test]
fn ndarray_repeated_index_panic() {
    let mut data = grid(3, 3, vec![1, 0, 0, 0, 2, 0, 0, 0, 3]);
    let indices = [(1, 1), (1, 1)];

    assert_eq!(data.update_indices(&indices, 1, |_p, _s, x| x + 1), Err(SelectError::DuplicateIndex));
    assert_eq!(data.cells(), [1, 0, 0, 0, 2, 0, 0, 0, 3]);
}

#[test]
fn mutable_indexed() {
    let mut data = grid(
        3,
        8,
        vec![
            11, 22, 33, 44, 55, 66, 77, 88, 99, 00, 11, 22, 33, 44, 55, 66, 77, 88, 99, 00, 11, 22, 33, 44,
        ],
    );
    let before = data.cells().to_vec();

    data.update_indices(&[(0, 4), (2, 7), (1, 3), (0, 0), (2, 3)], 1, |_pos, slot, x| {
        println!("data[{:?}] = {:02}", (slot / 8, slot % 8), x);
        x
    })
    .unwrap();
    assert_eq!(data.cells(), before.as_slice());
}

#[test]
fn grid_shape_must_match_cells() {
    assert!(Grid::from_vec(2, 3, vec![0; 5]).is_none());
    let g = Grid::from_vec(2, 3, vec![0; 6]).unwrap();
    assert_eq!((g.rows(), g.cols()), (2, 3));
    assert!(Grid::<u8>::from_vec(usize::MAX, 2, vec![]).is_none());
}
