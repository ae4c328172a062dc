use compute_util::list_gather::take_value_indices_from_list;

#[test]
fn test_take_value_index_from_list() {
    let offsets: Vec<u32> = vec![0, 2, 5, 10];
    let index: Vec<Option<u32>> = vec![Some(2), Some(0)];
    let (indexed, new_offsets) = take_value_indices_from_list(&offsets, &index);
    assert_eq!(vec![0, 5, 7], new_offsets);
    assert_eq!(
        vec![
            Some(5),
            Some(6),
            Some(7),
            Some(8),
            Some(9),
            Some(0),
            Some(1),
        ],
        indexed
    );
}

#[test]
fn test_take_value_indices_with_nulls() {
    // A null entry repeats the offset and contributes no indices.
    let offsets: Vec<u32> = vec![0, 2, 5, 10];
    let index: Vec<Option<u32>> = vec![Some(1), None, Some(1)];
    let (indexed, new_offsets) = take_value_indices_from_list(&offsets, &index);
    assert_eq!(vec![0, 3, 3, 6], new_offsets);
    assert_eq!(
        vec![Some(2), Some(3), Some(4), Some(2), Some(3), Some(4)],
        indexed
    );
}

#[test]
fn test_take_value_indices_empty_sublist() {
    // Selecting an element whose run is empty repeats the offset too.
    let offsets: Vec<u32> = vec![0, 2, 2, 5];
    let index: Vec<Option<u32>> = vec![Some(1), Some(2)];
    let (indexed, new_offsets) = take_value_indices_from_list(&offsets, &index);
    assert_eq!(vec![0, 0, 3], new_offsets);
    assert_eq!(vec![Some(2), Some(3), Some(4)], indexed);
}

#[test]
fn test_take_value_indices_no_indices() {
    let offsets: Vec<u32> = vec![0, 4];
    let index: Vec<Option<u32>> = vec![];
    let (indexed, new_offsets) = take_value_indices_from_list(&offsets, &index);
    assert_eq!(vec![0], new_offsets);
    assert!(indexed.is_empty());
}
