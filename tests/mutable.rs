use select_indices::{
    par_select_indices_mut, par_select_with_iter_mut, select_indices_mut, select_with_iter_mut, ParSelectIndicesMut,
    SelectError, SelectIndicesMut,
};

#[test]
fn mutable_mutable_select_indices_test() {
    let mut data = vec![
        0, 0, 9, 0, 0, 0, 0, 9, 0, 0, 0, 0, 9, 0, 0, 0, 0, 9, 0, 0, 0, 0, 9, 0, 0,
    ];

    let indices = [7, 17, 2, 12, 22];

    let mut it = data.select_indices_mut(&indices).unwrap();
    let mut i = 0;
    while let Some(x) = it.next() {
        *x = i + 1;
        i += 1;
    }

    assert_eq!(
        data,
        [0, 0, 3, 0, 0, 0, 0, 1, 0, 0, 0, 0, 4, 0, 0, 0, 0, 2, 0, 0, 0, 0, 5, 0, 0]
    )
}

#[test]
fn mutable_mutable_out_of_range_panic() {
    let mut data = vec![1, 2, 3];
    let indices = [1, 2, 3];

    assert_eq!(data.select_indices_mut(&indices).err(), Some(SelectError::OutOfBounds));
    assert_eq!(data, [1, 2, 3]);
}

#[test]
fn mutable_mutable_repeated_index_panic() {
    let mut data = vec![1, 2, 3];
    let indices = [1, 1];

    assert_eq!(data.select_indices_mut(&indices).err(), Some(SelectError::DuplicateIndex));
    assert_eq!(data, [1, 2, 3]);
}

#[test]
fn par_mutable_select_indices_test() {
    let mut data = vec![
        0, 0, 9, 0, 0, 0, 0, 9, 0, 0, 0, 0, 9, 0, 0, 0, 0, 9, 0, 0, 0, 0, 9, 0, 0,
    ];

    let indices = [7, 17, 2, 12, 22];

    data.par_select_indices_mut(&indices).unwrap().for_each(1, |pos, _index, _old| pos + 1);

    assert_eq!(
        data,
        [0, 0, 3, 0, 0, 0, 0, 1, 0, 0, 0, 0, 4, 0, 0, 0, 0, 2, 0, 0, 0, 0, 5, 0, 0]
    )
}

#[test]
fn par_mutable_out_of_range_panic() {
    let mut data = vec![1, 2, 3];
    let indices = [1, 2, 3];

    assert!(matches!(par_select_indices_mut(&mut data, &indices), Err(SelectError::OutOfBounds)));
    assert_eq!(data, [1, 2, 3]);
}

#[test]
fn par_mutable_repeated_index_panic() {
    let mut data = vec![1, 2, 3];
    let indices = [1, 1];

    assert!(matches!(par_select_indices_mut(&mut data, &indices), Err(SelectError::DuplicateIndex)));
    assert_eq!(data, [1, 2, 3]);
}

#[test]
fn mod_select_indices() {
    let mut data = vec![
        0, 0, 9, 0, 0, 0, 0, 9, 0, 0, 0, 0, 9, 0, 0, 0, 0, 9, 0, 0, 0, 0, 9, 0, 0,
    ];

    let indices = [7, 17, 2, 12, 22];

    select_indices_mut(&mut data, &indices).unwrap().for_each(|pos, _index, _old| pos + 1);

    assert_eq!(
        data,
        [0, 0, 3, 0, 0, 0, 0, 1, 0, 0, 0, 0, 4, 0, 0, 0, 0, 2, 0, 0, 0, 0, 5, 0, 0]
    )
}

#[test]
fn mut_mod_out_of_range_panic() {
    let mut data = vec![1, 2, 3];
    let indices = [1, 2, 3];

    assert!(matches!(select_indices_mut(&mut data, &indices), Err(SelectError::OutOfBounds)));
}

#[test]
fn mod_repeated_index_panic() {
    let mut data = vec![1, 2, 3];
    let indices = [1, 1];

    assert!(matches!(select_indices_mut(&mut data, &indices), Err(SelectError::DuplicateIndex)));
}

#[test]
fn mut_mod_indexed_halfway() {
    let mut data = vec![
        11, 22, 33, 44, 55, 66, 77, 88, 99, 00, 11, 22, 33, 44, 55, 66, 77, 88, 99, 00, 11, 22, 33, 44,
    ];

    let mut iter = data.select_indices_mut(&[4, 23, 12, 21, 0]).unwrap();
    assert_eq!(iter.next().cloned(), Some(55));
    assert_eq!(iter.next().cloned(), Some(44));
    assert_eq!(iter.next().cloned(), Some(33));

    let mut iter = iter.indexed();
    assert_eq!(iter.next().map(|(i, v)| (i, *v)), Some((21, 22)));
    assert_eq!(iter.next().map(|(i, v)| (i, *v)), Some((0, 11)));
    assert_eq!(iter.next(), None);
}

#[test]
fn rayon_select_indices() {
    let indices = [7, 17, 2, 12, 22];

    for min_len in [1, 2, 4, 5, 64] {
        let mut data = vec![
            0, 0, 9, 0, 0, 0, 0, 9, 0, 0, 0, 0, 9, 0, 0, 0, 0, 9, 0, 0, 0, 0, 9, 0, 0,
        ];
        data.par_select_indices_mut(&indices).unwrap().for_each(min_len, |pos, _index, _old| pos + 1);

        assert_eq!(
            data,
            [0, 0, 3, 0, 0, 0, 0, 1, 0, 0, 0, 0, 4, 0, 0, 0, 0, 2, 0, 0, 0, 0, 5, 0, 0]
        )
    }
}

#[test]
fn mut_rayon_out_of_range_panic() {
    let mut data = vec![1, 2, 3];
    let indices = [1, 2, 3];

    assert!(data.par_select_indices_mut(&indices).is_err());
}

#[test]
fn rayon_repeated_index_panic() {
    let mut data = vec![1, 2, 3];
    let indices = [1, 1];

    assert!(data.par_select_indices_mut(&indices).is_err());
}

#[test]
fn lazily_checked_refuses_a_repeat_mid_stream() {
    let mut data = vec![1, 2, 3];
    let indices = [0, 2, 0, 1];

    let mut it = select_with_iter_mut(&mut data, &indices);
    *it.next().unwrap().unwrap() += 10;
    *it.next().unwrap().unwrap() += 10;
    assert!(matches!(it.next(), Some(Err(SelectError::AliasingViolation))));
    *it.next().unwrap().unwrap() += 10;
    assert!(it.next().is_none());
    assert_eq!(data, [11, 12, 13]);
}

#[test]
fn lazily_checked_refuses_out_of_range_mid_stream() {
    let mut data = vec![1, 2, 3];
    let indices = [2, 7];

    let mut it = data.select_with_iter_mut(&indices).indexed();
    let (i, x) = it.next().unwrap().unwrap();
    assert_eq!(i, 2);
    *x = 30;
    assert!(matches!(it.next(), Some(Err(SelectError::OutOfBounds))));
    assert_eq!(data, [1, 2, 30]);
}

#[test]
fn parallel_lazily_checked_update() {
    let mut data = vec![0usize; 8];
    let indices = [6, 1, 3];
    let r = par_select_with_iter_mut(&mut data, &indices).for_each(1, |_pos, index, old| old + index);
    assert_eq!(r, Ok(()));
    assert_eq!(data, [0, 1, 0, 3, 0, 0, 6, 0]);

    let mut data = vec![0usize; 4];
    let r = data.par_select_with_iter_mut(&[1, 2, 1]).for_each(1, |_pos, _index, old| old + 1);
    assert_eq!(r, Err(SelectError::AliasingViolation));

    let mut data = vec![0usize; 4];
    let r = data.par_select_with_iter_mut(&[1, 9]).for_each(1, |_pos, _index, old| old + 1);
    assert_eq!(r, Err(SelectError::OutOfBounds));
    assert_eq!(data[0], 0);
}

#[test]
fn lazily_checked_from_both_ends() {
    let mut data = vec![1, 2, 3, 4];
    let indices = [3, 1, 3];

    let mut it = data.select_with_iter_mut(&indices);
    assert_eq!(it.len(), 3);
    *it.next_back().unwrap().unwrap() = 40;
    assert!(matches!(it.next(), Some(Err(SelectError::AliasingViolation))));
    *it.next_back().unwrap().unwrap() = 100;
    assert!(it.next_back().is_none());
    assert!(it.next().is_none());
    assert_eq!(data, [1, 100, 3, 40]);

    let mut data = vec![1, 2, 3, 4];
    let mut it = data.select_with_iter_mut(&indices).indexed();
    let (i, x) = it.next_back().unwrap().unwrap();
    assert_eq!(i, 3);
    *x = 40;
    assert!(matches!(it.next(), Some(Err(SelectError::AliasingViolation))));
    assert_eq!(it.len(), 1);
    let (i, x) = it.next().unwrap().unwrap();
    assert_eq!(i, 1);
    *x = 20;
    assert_eq!(data, [1, 20, 3, 40]);
}
