use meshview::camera::{get_unit_vector, Direction};

#[test]
fn unit_vector_of_each_axis() {
    assert_eq!(get_unit_vector(Direction::X), [1, 0, 0]);
    assert_eq!(get_unit_vector(Direction::Y), [0, 1, 0]);
    assert_eq!(get_unit_vector(Direction::Z), [0, 0, 1]);
}
