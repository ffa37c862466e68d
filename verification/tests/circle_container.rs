use vpad_core::circle_container::CircleContainer;

#[test]
fn circle_container_test_new() {
    let _container = CircleContainer::new(vec![1, 2, 3]);
}

#[test]
fn test_iterator_with_non_empty_container() {
    let mut container = CircleContainer::new(vec![1, 2, 3]);

    assert_eq!(container.next(), Some(1));
    assert_eq!(container.next(), Some(2));
    assert_eq!(container.next(), Some(3));
}

#[test]
fn test_iterator_with_empty_container() {
    let mut container: CircleContainer<u32> = CircleContainer::new(vec![]);
    assert_eq!(container.next(), None);
}

#[test]
fn pulls_wrap_round_and_repeat() {
    let items = vec![7u8, 8, 9, 10];
    let mut container = CircleContainer::new(items.clone());
    let mut first_round = Vec::new();
    for _ in 0..items.len() {
        first_round.push(container.next().unwrap());
    }
    assert_eq!(first_round, items);
    for k in 0..10 {
        assert_eq!(container.next(), Some(items[k % items.len()]));
    }
    assert_eq!(container.len(), 4);
}

#[test]
fn single_element_repeats_forever() {
    let mut container = CircleContainer::new(vec![42i8]);
    for _ in 0..5 {
        assert_eq!(container.next(), Some(42));
    }
}
