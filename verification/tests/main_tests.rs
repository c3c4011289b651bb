use closed_range::closed_range::ClosedRange;

#[test]
fn main_test_init() {
    // Act
    let range = ClosedRange::new(1, 10).unwrap();
    // Assert
    assert_eq!(range.lower, 1);
    assert_eq!(range.upper, 10);
}

#[test]
fn main_test_init_error() {
    // Act
    let result = ClosedRange::new(10, 1);
    // Assert
    assert!(result.is_err());
    let message = result.err().unwrap();
    assert_eq!(
        message,
        "下限値が上限値より大きいため、有効な閉区間ではありません"
    );
}

#[test]
fn main_test_contains() {
    // Act
    let range = ClosedRange::new(1, 10).unwrap();
    // Assert
    assert!(range.contains(1));
    assert!(range.contains(5));
    assert!(range.contains(10));
    assert!(!range.contains(0));
    assert!(!range.contains(11));
}

#[test]
fn main_test_is_equal() {
    // Arrange
    let range1 = ClosedRange::new(1, 10).unwrap();
    let range2 = ClosedRange::new(1, 10).unwrap();
    // Act & Assert
    assert!(range1 == range2);
}

#[test]
fn main_test_is_not_equal() {
    // Arrange
    let range1 = ClosedRange::new(1, 10).unwrap();
    let range2 = ClosedRange::new(1, 11).unwrap();
    // Act & Assert
    assert!(range1 != range2);
}

#[test]
fn main_test_is_subset() {
    // Arrange
    let target = ClosedRange::new(1, 10).unwrap();
    let container = ClosedRange::new(1, 20).unwrap();
    // Act & Assert
    assert!(target.is_subset(&container));
}

#[test]
fn main_test_is_not_subset() {
    // Arrange
    let target = ClosedRange::new(1, 10).unwrap();
    let container = ClosedRange::new(5, 15).unwrap();
    // Act & Assert
    assert!(!target.is_subset(&container));
}

#[test]
fn main_test_display() {
    // Arrange
    let range = ClosedRange::new(1, 10).unwrap();
    // Act
    let output = range.render();
    // Assert
    assert_eq!(output, "[1, 10]");
}
