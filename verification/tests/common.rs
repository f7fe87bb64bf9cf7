use plain_ds::list::common::ListCommon;

// Helper function to create a list with values [0, 1, 2, ..., n-1]
fn setup_list(n: usize) -> ListCommon<usize> {
    let mut list = ListCommon::new();
    for i in 0..n {
        list.push_back(i);
    }
    list
}

/// Helper function to create a list from a slice of values
fn create_list_from_slice<T: Clone>(values: &[T]) -> ListCommon<T> {
    let mut list = ListCommon::new();
    for value in values {
        list.push_back(value.clone());
    }
    list
}

#[test]
fn common_test_creation() {
    let list: ListCommon<u8> = ListCommon::new();
    assert_eq!(list.len(), 0, "not zero length after creation");
    assert_eq!(list.head(), None, "not empty head after creation");
    assert_eq!(list.last(), None, "not empty last after creation");
}

#[test]
fn test_push() {
    let mut list: ListCommon<u8> = ListCommon::new();
    assert_eq!(list.len(), 0, "len non zero after creation");

    list.push_back(1);
    assert_eq!(list.len(), 1, "bad length after push_back()");
    assert_eq!(list.head(), Some(&1), "incorrect head after push_back()");
    assert_eq!(list.last(), Some(&1), "incorrect last after push_back()");
    assert_ne!(list.len(), 0, "len() returns 0 after push_back()");

    list.push_back(2);
    assert_eq!(list.len(), 2, "bad length after push_back()");
    assert!(list.head().is_some(), "head is None after push_back()");
    assert_eq!(list.head(), Some(&1), "incorrect head payload");
    assert_eq!(list.last(), Some(&2), "incorrect last after push_back()");
    assert_ne!(!list.len(), 0, "len is zero after push_back()");

    let mut list: ListCommon<String> = ListCommon::new();
    list.push_back("hello".to_string());
    assert_eq!(list.len(), 1, "bad length after push_back()");
    assert!(list.head().is_some(), "head is None after push_back()");
    assert_eq!(list.head().unwrap(), "hello", "incorrect head payload");

    let mut list: ListCommon<&[char]> = ListCommon::new();
    list.push_back(&['a', 'b', 'c']);
    assert_eq!(list.len(), 1, "bad length after push_back()");
    assert!(list.head().is_some(), "head is None after push_back()");
    assert_eq!(list.head().unwrap(), &['a', 'b', 'c'], "incorrect head payload");
}

#[test]
fn common_test_pop_back_empty_list() {
    let mut list: ListCommon<u8> = ListCommon::new();
    assert_eq!(list.pop_back(), None, "pop_back from empty list should return None");
    assert_eq!(list.len(), 0, "list should remain empty after pop_back on empty");
}

#[test]
fn common_test_pop_back_single_element() {
    let mut list = ListCommon::new();
    list.push_back(42);
    assert_eq!(list.pop_back(), Some(42), "pop_back() should return the only element");
    assert_eq!(list.len(), 0, "list should be empty after popping the last element");
    assert_eq!(list.head(), None, "head should be None after popping last element");
    assert_eq!(list.last(), None, "last should be None after popping last element");
}

#[test]
fn common_test_pop_back_multiple_elements() {
    let mut list = setup_list(3); // [0, 1, 2]
    assert_eq!(list.pop_back(), Some(2), "pop_back() should return last element (2)");
    assert_eq!(list.len(), 2, "size should decrease by 1 after pop_back()");
    assert_eq!(list.last(), Some(&1), "new last element should be 1");

    assert_eq!(list.pop_back(), Some(1), "pop_back() should return 1 next");
    assert_eq!(list.len(), 1, "size should be 1 after second pop_back()");
    assert_eq!(list.head(), Some(&0), "head should still be 0");
    assert_eq!(list.last(), Some(&0), "last should now be 0");

    assert_eq!(list.pop_back(), Some(0), "pop_back() should return 0 finally");
    assert_eq!(list.len(), 0, "list should be empty after all pop-backs");
}

#[test]
fn common_test_pop_front_empty_list() {
    let mut list = ListCommon::<u8>::new();
    assert_eq!(list.pop_front(), None, "pop_front() from empty list should return None");
    assert_eq!(list.len(), 0, "list should remain empty after pop_front() on empty");
}

#[test]
fn common_test_pop_front_single_element() {
    let mut list = ListCommon::new();
    list.push_back(99);
    assert_eq!(list.pop_front(), Some(99), "pop_front() should return the only element");
    assert_eq!(list.len(), 0, "list should be empty after popping the only element");
    assert_eq!(list.head(), None, "head should be None after pop");
    assert_eq!(list.last(), None, "last should be None after pop");
}

#[test]
fn common_test_pop_front_multiple_elements() {
    let mut list = setup_list(3); // [0, 1, 2]
    assert_eq!(list.pop_front(), Some(0), "pop_front should return first element (0)");
    assert_eq!(list.len(), 2, "size should decrease by 1 after pop_front");
    assert_eq!(list.head(), Some(&1), "new head should be 1");
    assert_eq!(list.last(), Some(&2), "last should remain 2");

    assert_eq!(list.pop_front(), Some(1), "pop_front should return 1 next");
    assert_eq!(list.len(), 1, "size should be 1 after second pop_front");
    assert_eq!(list.head(), Some(&2), "head should now be 2");
    assert_eq!(list.last(), Some(&2), "last should also be 2");

    assert_eq!(list.pop_front(), Some(2), "pop_front should return 2 finally");
    assert_eq!(list.len(), 0, "list should be empty after all pop_fronts");
}

#[test]
fn common_test_remove_from_empty_list() {
    let mut list = ListCommon::<u8>::new();
    assert!(list.remove(0).is_err(), "remove from empty list should return error");
    assert_eq!(list.len(), 0, "size should remain 0");
}

#[test]
fn common_test_remove_first_element() {
    let mut list = setup_list(3); // [0, 1, 2]
    let removed = list.remove(0).unwrap();
    assert_eq!(removed, 0, "removed value should be 0 (first element)");
    assert_eq!(list.len(), 2, "size should decrease by 1");
    assert_eq!(list.head(), Some(&1), "new head should be 1");
}

#[test]
fn common_test_remove_last_element() {
    let mut list = setup_list(3); // [0, 1, 2]
    let removed = list.remove(2).unwrap(); // index = size - 1
    assert_eq!(removed, 2, "removed value should be 2 (last element)");
    assert_eq!(list.len(), 2, "size should decrease by 1");
    assert_eq!(list.last(), Some(&1), "new last should be 1");
}

#[test]
fn common_test_remove_middle_element() {
    let mut list = setup_list(4); // [0, 1, 2, 3]
    let removed = list.remove(1).unwrap(); // remove element at index 1 (value 1)
    assert_eq!(removed, 1, "removed value should be 1");
    assert_eq!(list.len(), 3, "size should decrease by 1");

    // Verify the order: [0, 2, 3]
    let values: Vec<usize> = list.to_vec();
    assert_eq!(values, vec![0, 2, 3], "list should have correct order after removal");
}

#[test]
fn common_test_empty_list_iterators() {
    let mut list: ListCommon<i32> = ListCommon::new();

    // Reference iterator
    {
        let mut iter = list.iter();
        assert_eq!(iter.next(), None);
    }

    // Mutable iterator
    {
        let mut iter_mut = list.iter_mut();
        assert_eq!(iter_mut.next(&mut list), None);
    }

    // IntoIterator (takes ownership)
    let mut into_iter = list.into_iter();
    let mut collected: Vec<i32> = Vec::new();
    while let Some(value) = into_iter.next() {
        collected.push(value);
    }
    assert_eq!(collected, Vec::<i32>::new());
}

#[test]
fn common_test_sequential_iteration() {
    let mut list = ListCommon::new();
    for i in 0..5 {
        list.push_back(i);
    }

    // Checking an iterator by references
    let collected: Vec<i32> = list.to_vec();
    assert_eq!(collected, vec![0, 1, 2, 3, 4]);

    // Checking a mutable iterator (changing values)
    let mut iter_mut = list.iter_mut();
    while let Some(item) = iter_mut.next(&mut list) {
        *item *= 2;
    }
    let doubled: Vec<i32> = list.to_vec();
    assert_eq!(doubled, vec![0, 2, 4, 6, 8]);

    // Checking an IntoIterator
    let mut into_iter = list.into_iter();
    let mut into_collected: Vec<i32> = Vec::new();
    while let Some(value) = into_iter.next() {
        into_collected.push(value);
    }
    assert_eq!(into_collected, vec![0, 2, 4, 6, 8]);
}

#[test]
fn common_test_partial_iteration() {
    let mut list = ListCommon::new();
    for i in 0..10 {
        list.push_back(i);
    }
    {
        let mut iter = list.iter();
        // We only go through the first 3 elements
        assert_eq!(iter.next(), Some(&0));
        assert_eq!(iter.next(), Some(&1));
        assert_eq!(iter.next(), Some(&2));
        // We stop without going all the way
    }
    // The list must remain intact
    assert_eq!(list.len(), 10);

    // You can start the iteration again
    let first_element = list.iter().next();
    assert_eq!(first_element, Some(&0));
}

#[test]
fn common_test_concurrent_iterators() {
    let mut list = ListCommon::new();
    list.push_back(1);
    list.push_back(2);
    list.push_back(3);

    // Several read-only walks at once
    let collect1: Vec<i32> = list.to_vec();
    let collect2: Vec<i32> = list.to_vec();
    {
        let mut iter3 = list.iter_mut();
        let first_mut = iter3.next(&mut list).unwrap();
        *first_mut = 100;
    }

    assert_eq!(collect1, vec![1, 2, 3]);
    assert_eq!(collect2, vec![1, 2, 3]);
    assert_eq!(list.to_vec(), vec![100, 2, 3]);
}

#[test]
fn common_test_mutable_iteration_modification() {
    let mut list = ListCommon::new();
    for i in 1..=3 {
        list.push_back(i);
    }

    let mut counter = 0;
    let mut iter_mut = list.iter_mut();
    while let Some(item) = iter_mut.next(&mut list) {
        counter += 1;
        *item = *item * counter; // Multiply by the iteration number
    }

    let result: Vec<i32> = list.to_vec();
    assert_eq!(result, vec![1, 4, 9]); // 1×1, 2×2, 3×3
}

#[test]
fn common_test_large_list_iteration() {
    const LARGE_SIZE: usize = 10_000;

    let mut list = ListCommon::new();
    for i in 0..LARGE_SIZE {
        list.push_back(i);
    }

    // Full pass through the iterator
    let mut sum: usize = 0;
    let mut it = list.iter();
    while let Some(value) = it.next() {
        sum += *value;
    }
    let expected_sum: usize = (0..LARGE_SIZE).sum();
    assert_eq!(sum, expected_sum);

    // Partial pass over the first ten
    let mut first_10: Vec<usize> = Vec::new();
    let mut it = list.iter();
    while first_10.len() < 10 {
        first_10.push(*it.next().unwrap());
    }
    assert_eq!(first_10, (0..10).collect::<Vec<_>>());
}

#[test]
fn test_to_vec_empty_list() {
    let list: ListCommon<i32> = ListCommon::new();

    let result = list.to_vec();

    assert_eq!(result.len(), 0, "vector from empty list should be empty");
    assert!(result.is_empty(), "result vector should be empty for empty list");
}

#[test]
fn test_to_vec_single_element() {
    let mut list = ListCommon::new();
    list.push_back(42);

    let result = list.to_vec();

    assert_eq!(result.len(), 1, "vector should have one element");
    assert_eq!(result, vec![42], "vector should contain the single element from list");
}

#[test]
fn test_to_vec_multiple_elements() {
    let values = vec![1, 2, 3, 4, 5];
    let list = create_list_from_slice(&values);

    let result = list.to_vec();

    assert_eq!(result.len(), 5, "vector should have 5 elements");
    assert_eq!(result, values, "vector should match original values in order");
}

#[test]
fn test_to_vec_preserves_order() {
    let values = vec!["apple", "banana", "cherry", "date"];
    let list = create_list_from_slice(&values);

    let result = list.to_vec();

    assert_eq!(
        result, values,
        "vector should preserve the order of elements from the list"
    );
}

#[test]
fn test_to_vec_with_duplicates() {
    let values = vec![5, 2, 8, 2, 9, 5];
    let list = create_list_from_slice(&values);

    let result = list.to_vec();

    assert_eq!(
        result, values,
        "vector should include all duplicates in correct positions"
    );
}

#[test]
fn test_to_vec_capacity_matches_length() {
    let values = vec![10, 20, 30];
    let list = create_list_from_slice(&values);

    let result = list.to_vec();

    assert_eq!(
        result.capacity(),
        3,
        "vector capacity should match list length due to pre-allocation"
    );
    assert_eq!(result.len(), 3, "vector length should be 3");
}

#[test]
fn test_to_vec_string_data() {
    let strings = vec!["hello".to_string(), "world".to_string(), "rust".to_string()];
    let list = create_list_from_slice(&strings);

    let result = list.to_vec();

    assert_eq!(result.len(), 3, "vector of strings should have correct length");
    assert_eq!(result, strings, "string vector should match original strings");
}

#[test]
fn test_to_vec_large_list() {
    const SIZE: usize = 1000;
    let values: Vec<usize> = (0..SIZE).collect();
    let list = create_list_from_slice(&values);

    let result = list.to_vec();

    assert_eq!(result.len(), SIZE, "large list should produce vector of correct size");
    for i in 0..SIZE {
        assert_eq!(result[i], i, "element at index {} should be correct", i);
    }
}

#[test]
fn test_to_vec_does_not_modify_original_list() {
    let mut list = ListCommon::new();
    list.push_back(10);
    list.push_back(20);
    list.push_back(30);

    let original_len = list.len();

    let _result = list.to_vec();

    assert_eq!(list.len(), original_len, "to_vec() should not modify the original list");
    assert_eq!(list.head(), Some(&10), "head element should remain unchanged");
    assert_eq!(list.last(), Some(&30), "last element should remain unchanged");
}

#[test]
fn test_to_vec_with_custom_cloneable_type() {
    #[derive(Clone, PartialEq, Debug)]
    struct Point {
        x: i32,
        y: i32,
    }

    let points = vec![Point { x: 1, y: 2 }, Point { x: 3, y: 4 }, Point { x: 5, y: 6 }];
    let list = create_list_from_slice(&points);

    let result = list.to_vec();

    assert_eq!(result.len(), 3, "vector of custom types should have correct length");
    assert_eq!(
        result, points,
        "custom cloneable types should be properly cloned and preserved"
    );
}

#[test]
fn common_test_remove_out_of_bounds() {
    let mut list = setup_list(2); // [0, 1]

    // Index equal to size (should be out of bounds)
    assert!(list.remove(2).is_err(), "remove with index == size should return error");

    // Index greater than size
    assert!(
        list.remove(5).is_err(),
        "remove with large out-of-bounds index should return error"
    );

    // Empty list
    let mut empty_list = ListCommon::<u8>::new();
    assert!(empty_list.remove(0).is_err(), "remove from empty list should return error");
}

#[test]
fn common_test_remove_single_element_list() {
    let mut list = ListCommon::new();
    list.push_back(42);
    let removed = list.remove(0).unwrap();
    assert_eq!(removed, 42, "removed value should be 42");
    assert_eq!(list.len(), 0, "list should be empty after removing the only element");
    assert_eq!(list.head(), None, "head should be None");
    assert_eq!(list.last(), None, "last should be None");
}

#[test]
fn common_test_remove_preserves_head_and_last_pointers() {
    let mut list = setup_list(4); // [0, 1, 2, 3]

    // Remove middle element (index 1, value 1)
    let _ = list.remove(1);

    assert_eq!(list.head(), Some(&0), "head pointer should remain correct");
    assert_eq!(list.last(), Some(&3), "last pointer should remain correct");
}

#[test]
fn common_test_multiple_removes() {
    let mut list = setup_list(5); // [0, 1, 2, 3, 4]

    // Remove second element (index 1, value 1)
    let removed1 = list.remove(1).unwrap();
    assert_eq!(removed1, 1);
    assert_eq!(list.len(), 4);

    // Remove new second element (was 2, now at index 1)
    let removed2 = list.remove(1).unwrap();
    assert_eq!(removed2, 2);
    assert_eq!(list.len(), 3);

    // Final state should be [0, 3, 4]
    let final_values: Vec<usize> = list.to_vec();
    assert_eq!(
        final_values,
        vec![0, 3, 4],
        "list should have correct values after multiple removes"
    );
}

#[test]
fn common_test_remove_with_complex_types_string() {
    let mut list = ListCommon::new();
    list.push_back("first".to_string());
    list.push_back("second".to_string());
    list.push_back("third".to_string());

    let removed = list.remove(1).unwrap(); // Remove "second"
    assert_eq!(removed, "second".to_string(), "removed value should be 'second'");
    assert_eq!(list.len(), 2, "size should be 2 after removal");

    // Verify order: ["first", "third"]
    let remaining: Vec<String> = list.to_vec();
    assert_eq!(remaining, vec!["first", "third"]);
}

#[test]
fn common_test_remove_edge_cases() {
    // Test removing from a list with two elements
    let mut two_elements = ListCommon::new();
    two_elements.push_back(10);
    two_elements.push_back(20);

    // Remove first (index 0)
    let removed_first = two_elements.remove(0).unwrap();
    assert_eq!(removed_first, 10);
    assert_eq!(two_elements.len(), 1);
    assert_eq!(two_elements.head(), Some(&20));

    // Now remove the last (only remaining) element
    let removed_last = two_elements.remove(0).unwrap();
    assert_eq!(removed_last, 20);
    assert_eq!(two_elements.len(), 0);
}
