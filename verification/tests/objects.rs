#[test]
fn objects_test_addition() {}

#[test]
fn objects_test_subtraction() {}

#[test]
fn objects_test_multiplication_scalar() {}

#[test]
fn objects_test_dotproduct() {}

#[test]
fn objects_test_division() {}

#[test]
fn objects_test_normals() {}
