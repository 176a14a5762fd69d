use select_indices::{
    check_bounds, check_exclusive, par_select_indices, par_select_indices_mut, select_indices, select_indices_mut,
    select_indices_mut_unchecked, select_indices_unchecked, update_indices, SelectError, VisitedSet,
};

#[test]
fn selection_reads_each_index_in_order() {
    let data = [7, 8, 9, 10];
    let indices = [3, 0, 2];
    let got: Vec<i32> = select_indices(&data, &indices).unwrap().into_vec().into_iter().copied().collect();
    let direct: Vec<i32> = indices.iter().map(|&i| data[i]).collect();
    assert_eq!(got, direct);
    assert_eq!(got, vec![10, 7, 9]);
}

#[test]
fn out_of_range_is_refused_everywhere() {
    let mut data = vec![1, 2, 3];
    let indices = [0, 3];
    assert_eq!(check_bounds(3, &indices), Err(SelectError::OutOfBounds));
    assert!(select_indices(&data, &indices).is_err());
    assert!(par_select_indices(&data, &indices).is_err());
    assert!(matches!(select_indices_mut(&mut data, &indices), Err(SelectError::OutOfBounds)));
    assert!(matches!(par_select_indices_mut(&mut data, &indices), Err(SelectError::OutOfBounds)));
    assert_eq!(update_indices(&mut data, &indices, 1, |_, _, x| x + 1), Err(SelectError::OutOfBounds));
    assert_eq!(data, [1, 2, 3]);
}

#[test]
fn out_of_range_wins_over_a_repeat() {
    assert_eq!(check_exclusive(3, &[1, 1, 5]), Err(SelectError::OutOfBounds));
    assert_eq!(check_exclusive(3, &[5, 1, 1]), Err(SelectError::OutOfBounds));
}

#[test]
fn more_indices_than_slots_is_a_repeat() {
    assert_eq!(check_exclusive(2, &[0, 1, 0]), Err(SelectError::DuplicateIndex));
    assert_eq!(check_exclusive(0, &[]), Ok(()));
    assert_eq!(check_exclusive(3, &[2, 0, 1]), Ok(()));
}

#[test]
fn repeat_refused_for_exclusive_access_only() {
    let mut data = vec![1, 2, 3];
    let indices = [1, 1];
    assert!(matches!(select_indices_mut(&mut data, &indices), Err(SelectError::DuplicateIndex)));
    let got: Vec<i32> = select_indices(&data, &indices).unwrap().into_vec().into_iter().copied().collect();
    assert_eq!(got, vec![2, 2]);
}

#[test]
fn front_and_back_then_drain_matches_front_drain() {
    let data = [5, 6, 7, 8, 9, 10];
    let indices = [5, 0, 3, 3, 1, 4];
    let whole: Vec<i32> = select_indices(&data, &indices).unwrap().into_vec().into_iter().copied().collect();
    for k in 0..=indices.len() {
        for m in 0..=(indices.len() - k) {
            let mut it = select_indices(&data, &indices).unwrap();
            let mut front = Vec::new();
            for _ in 0..k {
                front.push(*it.next().unwrap());
            }
            let mut back = Vec::new();
            for _ in 0..m {
                back.push(*it.next_back().unwrap());
            }
            assert_eq!(it.len(), indices.len() - k - m);
            let mut all = front;
            while let Some(x) = it.next() {
                all.push(*x);
            }
            back.reverse();
            all.extend(back);
            assert_eq!(all, whole);
        }
    }
}

#[test]
fn indexed_pairs_index_with_element() {
    let data = [11, 22, 33, 44];
    let indices = [2, 0, 3];
    let plain: Vec<i32> = select_indices(&data, &indices).unwrap().into_vec().into_iter().copied().collect();
    let mut it = select_indices(&data, &indices).unwrap().indexed();
    let mut k = 0;
    while let Some((i, x)) = it.next() {
        assert_eq!(i, indices[k]);
        assert_eq!(*x, plain[k]);
        k += 1;
    }
    assert_eq!(k, 3);
    let mut back = select_indices(&data, &indices).unwrap().indexed();
    assert_eq!(back.next_back().map(|(i, x)| (i, *x)), Some((3, 44)));
    assert_eq!(back.len(), 2);
    let par = par_select_indices(&data, &indices).unwrap().indexed().collect(1);
    let par: Vec<(usize, i32)> = par.into_iter().map(|(i, x)| (i, *x)).collect();
    assert_eq!(par, vec![(2, 33), (0, 11), (3, 44)]);
}

#[test]
fn parallel_and_sequential_updates_agree() {
    let indices = [9, 2, 4, 0, 7, 1];
    let mut sequential = vec![3usize; 10];
    select_indices_mut(&mut sequential, &indices).unwrap().for_each(|pos, index, old| old * 10 + index + pos);
    for min_len in [0, 1, 2, 3, 6, 100] {
        let mut parallel = vec![3usize; 10];
        par_select_indices_mut(&mut parallel, &indices).unwrap().for_each(min_len, |pos, index, old| old * 10 + index + pos);
        assert_eq!(parallel, sequential);
        let mut direct = vec![3usize; 10];
        update_indices(&mut direct, &indices, min_len, |pos, index, old| old * 10 + index + pos).unwrap();
        assert_eq!(direct, sequential);
    }
    assert_eq!(sequential, vec![33, 36, 33, 3, 36, 3, 3, 41, 3, 39]);
}

#[test]
fn selected_slots_set_to_their_index() {
    let mut data = vec![0usize; 25];
    update_indices(&mut data, &[2, 6, 8, 10, 14, 16, 18, 22], 2, |_pos, index, _old| index).unwrap();
    assert_eq!(
        data,
        [0, 0, 2, 0, 0, 0, 6, 0, 8, 0, 10, 0, 0, 0, 14, 0, 16, 0, 18, 0, 0, 0, 22, 0, 0]
    );

    let mut data = vec![0usize; 25];
    let mut it = select_indices_mut(&mut data, &[2, 6, 8, 10, 14, 16, 18, 22]).unwrap().indexed();
    while let Some((i, x)) = it.next() {
        *x = i;
    }
    assert_eq!(
        data,
        [0, 0, 2, 0, 0, 0, 6, 0, 8, 0, 10, 0, 0, 0, 14, 0, 16, 0, 18, 0, 0, 0, 22, 0, 0]
    );
}

#[test]
fn mutable_accessor_from_both_ends() {
    let mut data = vec![1, 2, 3, 4, 5];
    let mut it = select_indices_mut_unchecked(&mut data, &[4, 0, 2]);
    *it.next_back().unwrap() = 30;
    *it.next().unwrap() = 50;
    assert_eq!(it.len(), 1);
    *it.next().unwrap() = 10;
    assert!(it.next().is_none());
    assert!(it.next_back().is_none());
    assert_eq!(data, [10, 2, 30, 4, 50]);
}

#[test]
fn unchecked_shared_selection() {
    let data = [4, 5, 6];
    let mut it = select_indices_unchecked(&data, &[2, 2, 1]);
    assert_eq!(it.next_back(), Some(&5));
    assert_eq!(it.next(), Some(&6));
    assert_eq!(it.next(), Some(&6));
    assert_eq!(it.next(), None);
}

#[test]
fn parallel_split_keeps_order() {
    let data = [1, 2, 3, 4, 5];
    let it = par_select_indices(&data, &[4, 3, 2, 1, 0]).unwrap();
    let (a, b) = it.split_at(2);
    let a: Vec<i32> = a.collect(1).into_iter().copied().collect();
    let b: Vec<i32> = b.into_seq().into_vec().into_iter().copied().collect();
    assert_eq!(a, vec![5, 4]);
    assert_eq!(b, vec![3, 2, 1]);
}

#[test]
fn visited_set_reports_repeats() {
    let mut v = VisitedSet::with_capacity(2);
    assert!(v.visit(3));
    assert!(v.visit(1));
    assert!(!v.visit(3));
}

#[test]
fn empty_selection() {
    let mut data: Vec<u8> = vec![];
    assert!(select_indices(&data, &[]).unwrap().next().is_none());
    assert!(select_indices_mut(&mut data, &[]).unwrap().next().is_none());
    assert_eq!(update_indices(&mut data, &[], 1, |_, _, x| x), Ok(()));
}
