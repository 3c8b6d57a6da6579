use elementary_ca::utils::{
    get_index_wrapping, get_left_neighbour_index_wrapping, get_right_neighbour_index_wrapping,
};

#[test]
fn test_get_index_wrapping() {
    assert_eq!(0, get_index_wrapping(0, 10));
    assert_eq!(0, get_index_wrapping(10, 10));
    assert_eq!(5, get_index_wrapping(5, 10));
    assert_eq!(9, get_index_wrapping(19, 10));
    assert_eq!(0, get_index_wrapping(-10, 10));
}

#[test]
fn test_get_right_neighbour_index_wrapping() {
    assert_eq!(1, get_right_neighbour_index_wrapping(0, 4));
    assert_eq!(0, get_right_neighbour_index_wrapping(3, 4));
}

#[test]
fn test_get_left_neighbour_index_wrapping() {
    assert_eq!(2, get_left_neighbour_index_wrapping(3, 4));
    assert_eq!(3, get_left_neighbour_index_wrapping(0, 4));
}

#[test]
fn negative_indices_wrap_into_range() {
    assert_eq!(9, get_index_wrapping(-1, 10));
    assert_eq!(7, get_index_wrapping(-13, 10));
    assert_eq!(0, get_index_wrapping(-20, 10));
    assert_eq!(0, get_index_wrapping(0, 1));
    assert_eq!(0, get_index_wrapping(-5, 1));
}

#[test]
fn wrapping_is_in_range_and_periodic() {
    for size in 1isize..8 {
        for i in (-2 * size)..=(2 * size) {
            let w = get_index_wrapping(i, size);
            assert!(0 <= w && w < size);
            assert_eq!(w, get_index_wrapping(i + size, size));
        }
    }
}

#[test]
fn neighbours_of_a_single_cell_ring() {
    assert_eq!(0, get_left_neighbour_index_wrapping(0, 1));
    assert_eq!(0, get_right_neighbour_index_wrapping(0, 1));
}
