use bwb::helpers::{remove_multiple, set_eq};

#[test]
fn remove_multiple_0_3() {
    let mut vec = vec!["a", "b", "c"];
    let to_remove = vec![];

    remove_multiple(&mut vec, &to_remove);

    assert_eq!(vec, vec!["a", "b", "c"]);
}

#[test]
fn remove_multiple_1_1() {
    // Arrange
    let mut vec = vec!["a"];
    let to_remove = vec![0];

    // Act
    remove_multiple(&mut vec, &to_remove);

    // Assert
    assert_eq!(vec, Vec::<&str>::new());
}

#[test]
fn remove_multiple_1_3() {
    // Arrange
    let mut vec = vec!["a", "b", "c"];
    let to_remove = vec![0];

    // Act
    remove_multiple(&mut vec, &to_remove);

    // Assert
    // The last element takes the place of the one removed.
    assert_eq!(vec, vec!["c", "b"]);
}

#[test]
fn remove_multiple_2_3() {
    // Arrange
    let mut vec = vec!["a", "b", "c"];
    let to_remove = vec![0, 2];

    // Act
    remove_multiple(&mut vec, &to_remove);

    // Assert
    assert_eq!(vec, vec!["b"]);
}

#[test]
fn remove_multiple_2_3_rev() {
    // Arrange
    let mut vec = vec!["a", "b", "c"];
    let to_remove = vec![2, 0];

    // Act
    remove_multiple(&mut vec, &to_remove);

    // Assert
    assert_eq!(vec, vec!["b"]);
}

#[test]
fn remove_multiple_3_4() {
    // Arrange
    let mut vec = vec!["a", "b", "c", "d"];
    let to_remove = vec![1, 3, 2];

    // Act
    remove_multiple(&mut vec, &to_remove);

    // Assert
    assert_eq!(vec, vec!["a"]);
}

#[test]
fn remove_multiple_leaves_given_indices_alone() {
    let mut vec = vec![10, 20, 30, 40];
    let to_remove = vec![1, 3, 2];

    remove_multiple(&mut vec, &to_remove);

    assert_eq!(to_remove, vec![1, 3, 2]);
    assert_eq!(vec.len(), 1);
}

#[test]
fn remove_multiple_falling_indices() {
    let mut vec = vec!["a", "b", "c", "d", "e"];
    let to_remove = vec![4, 2, 0];

    remove_multiple(&mut vec, &to_remove);

    assert_eq!(vec, vec!["d", "b"]);
}

#[test]
fn remove_multiple_same_index_twice() {
    // The second removal takes what the first one moved into the gap.
    let mut vec = vec!["a", "b", "c"];
    let to_remove = vec![0, 0];

    remove_multiple(&mut vec, &to_remove);

    assert_eq!(vec, vec!["b"]);
}

#[test]
fn set_eq_test() {
    assert!(set_eq(
        &vec!["foo", "bar", "baz", "beh"],
        &vec!["beh", "foo", "baz", "bar"]
    ));
    assert!(!set_eq(
        &vec!["beh", "foo", "baz", "bar"],
        &vec!["beh", "foo", "baz", "baz"]
    ));
}

#[test]
fn set_eq_ignores_repeats() {
    assert!(set_eq(&[1u32, 1, 2], &[2u32, 1]));
    assert!(set_eq::<u32>(&[], &[]));
    assert!(!set_eq(&[1u32], &[]));
    assert!(!set_eq(&[], &[1u32]));
}
