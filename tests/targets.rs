use autokani::targets::{
    arr_input2, bool_input, i16_input, initialize_prefix, mut_u8_input, slice_input2, slice_input3, str_input,
    string_input, to_str, u8_input, get_sound1, Array,
};

#[test]
fn trivial_targets_accept_values() {
    u8_input(200);
    i16_input(-5);
    bool_input(true);
    string_input("abc".to_string());
    str_input("abc");
    arr_input2(&[1; 10]);
    slice_input3(&[1, 2, 3]);
    to_str(&vec![1, 2]);
    let mut b: u8 = 7;
    mut_u8_input(&mut b);
    assert_eq!(b, 7);
    let mut s = [4, 5];
    slice_input2(&mut s);
    assert_eq!(s, [4, 5]);
}

#[test]
fn initialize_prefix_zeroes_through_length() {
    let mut buf = [9u8; 5];
    initialize_prefix(2, &mut buf);
    assert_eq!(buf, [0, 0, 0, 9, 9]);
    let mut other = [9u8; 3];
    initialize_prefix(7, &mut other);
    assert_eq!(other, [9, 9, 9]);
}

#[test]
fn array_push_and_pop() {
    let mut a = Array::new(2);
    assert_eq!(a.pop(), None);
    a.push(1);
    a.push(2);
    a.push(3);
    assert_eq!(a.pop(), Some(2));
    assert_eq!(a.pop(), Some(1));
    assert_eq!(a.pop(), None);
}

#[test]
fn bounds_checked_reads() {
    let mut a = Array::new(4);
    a.push(10);
    a.push(20);
    assert_eq!(a.get_sound(0), Some(10));
    assert_eq!(a.get_sound(1), Some(20));
    assert_eq!(a.get_sound(2), None);
    assert_eq!(get_sound1(&a, 1), Some(20));
    assert_eq!(get_sound1(&a, 9), None);
}
