use dining_philosophers::{left_neighbour_of, right_neighbour_of};

#[test]
fn neighbours_at_a_table_of_five() {
    assert_eq!(left_neighbour_of::<5>(0), 4);
    assert_eq!(left_neighbour_of::<5>(1), 0);
    assert_eq!(left_neighbour_of::<5>(4), 3);
    assert_eq!(right_neighbour_of::<5>(0), 1);
    assert_eq!(right_neighbour_of::<5>(3), 4);
    assert_eq!(right_neighbour_of::<5>(4), 0);
}

#[test]
fn neighbours_follow_the_ring_formula() {
    for id in 0..7usize {
        assert_eq!(left_neighbour_of::<7>(id), (id + 7 - 1) % 7);
        assert_eq!(right_neighbour_of::<7>(id), (id + 1) % 7);
    }
}

#[test]
fn at_a_table_for_two_both_neighbours_are_the_other() {
    assert_eq!(left_neighbour_of::<2>(0), 1);
    assert_eq!(right_neighbour_of::<2>(0), 1);
    assert_eq!(left_neighbour_of::<2>(1), 0);
    assert_eq!(right_neighbour_of::<2>(1), 0);
}
