use select_indices::{par_select_indices, select_indices, ParSelectIndices, SelectError, SelectIndices};

fn values<T: Copy>(refs: Vec<&T>) -> Vec<T> {
    refs.into_iter().copied().collect()
}

#[test]
fn immutable_immutable_select_indices_test() {
    let data = [0, 0, 2, 0, 1, 0, 0, 0, 0, 0, 0, 0, 4, 5, 3];

    let indices = [4, 2, 14, 12, 13, 13, 12, 14, 2, 4];

    let got = values(data.select_indices(&indices).unwrap().into_vec());
    assert!(got == [1, 2, 3, 4, 5, 5, 4, 3, 2, 1]);
}

#[test]
fn immutable_immutable_out_of_range_panic() {
    let data = [1, 2, 3];
    let indices = [1, 2, 5];

    assert_eq!(data.select_indices(&indices).err(), Some(SelectError::OutOfBounds));
}

#[test]
fn immutable_immutable_indexed() {
    let data = vec![
        11, 22, 33, 44, 55, 66, 77, 88, 99, 00, 11, 22, 33, 44, 55, 66, 77, 88, 99, 00, 11, 22, 33, 44,
    ];

    let mut it = select_indices(&data, &[4, 23, 11, 0, 19]).unwrap().indexed();
    let mut seen = Vec::new();
    while let Some((i, x)) = it.next() {
        println!("data[{:2}] = {:02}", i, x);
        seen.push((i, *x));
    }
    assert_eq!(seen, vec![(4, 55), (23, 44), (11, 22), (0, 11), (19, 00)]);
}

#[test]
fn immutable_par_immutable_select_indices_test() {
    let data = [0, 0, 2, 0, 1, 0, 0, 0, 0, 0, 0, 0, 4, 5, 3];

    let indices = [4, 2, 14, 12, 13, 13, 12, 14, 2, 4];

    let got = values(data.par_select_indices(&indices).unwrap().collect(1));
    assert!(got == [1, 2, 3, 4, 5, 5, 4, 3, 2, 1]);
}

#[test]
fn immutable_par_immutable_out_of_range_panic() {
    let data = [1, 2, 3];
    let indices = [1, 2, 3];

    assert_eq!(par_select_indices(&data, &indices).err(), Some(SelectError::OutOfBounds));
}

#[test]
fn mod_select_indices_test() {
    let data = [0, 0, 2, 0, 1, 0, 0, 0, 0, 0, 0, 0, 4, 5, 3];

    let indices = [4, 2, 14, 12, 13, 13, 12, 14, 2, 4];

    let got = values(select_indices(&data, &indices).unwrap().into_vec());
    assert!(got == [1, 2, 3, 4, 5, 5, 4, 3, 2, 1]);
}

#[test]
fn mod_out_of_range_panic() {
    let data = [1, 2, 3];
    let indices = [1, 2, 5];

    assert!(matches!(select_indices(&data, &indices), Err(SelectError::OutOfBounds)));
}

#[test]
fn mod_indexed() {
    let data = vec![
        11, 22, 33, 44, 55, 66, 77, 88, 99, 00, 11, 22, 33, 44, 55, 66, 77, 88, 99, 00, 11, 22, 33, 44,
    ];

    let mut it = data.select_indices(&[4, 23, 11, 0, 19]).unwrap().indexed();
    let mut seen = Vec::new();
    while let Some((i, x)) = it.next() {
        println!("data[{i:2}] = {x:02}");
        seen.push((i, *x));
    }
    assert_eq!(seen, vec![(4, 55), (23, 44), (11, 22), (0, 11), (19, 00)]);
}

#[test]
fn mod_indexed_halfway() {
    let data = [
        11, 22, 33, 44, 55, 66, 77, 88, 99, 00, 11, 22, 33, 44, 55, 66, 77, 88, 99, 00, 11, 22, 33, 44,
    ];

    let mut iter = data.select_indices(&[4, 23, 12, 21, 0]).unwrap();
    assert_eq!(iter.next().cloned(), Some(55));
    assert_eq!(iter.next().cloned(), Some(44));
    assert_eq!(iter.next().cloned(), Some(33));

    let mut iter = iter.indexed();
    assert_eq!(iter.next().map(|(i, v)| (i, *v)), Some((21, 22)));
    assert_eq!(iter.next().map(|(i, v)| (i, *v)), Some((0, 11)));
    assert_eq!(iter.next(), None);
}

#[test]
fn rayon_select_indices_test() {
    let data = [0, 0, 2, 0, 1, 0, 0, 0, 0, 0, 0, 0, 4, 5, 3];

    let indices = [4, 2, 14, 12, 13, 13, 12, 14, 2, 4];

    for min_len in [1, 2, 3, 10, 100] {
        let got = values(par_select_indices(&data, &indices).unwrap().collect(min_len));
        assert!(got == [1, 2, 3, 4, 5, 5, 4, 3, 2, 1]);
    }
}

#[test]
fn rayon_out_of_range_panic() {
    let data = [1, 2, 3];
    let indices = [1, 2, 3];

    assert!(par_select_indices(&data, &indices).is_err());
}
