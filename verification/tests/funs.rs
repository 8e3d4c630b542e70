use pipe_dataflow::funs::{a, b, c, check, f_s, h, host_id, iter_i32, make_unit, State};
use pipe_dataflow::tasks::input_fun;

#[test]
fn state_constructors_keep_the_value() {
    assert_eq!(State::new(7).val, 7);
    assert_eq!(State::new_state(-3).val, -3);
}

#[test]
fn do_stuff_is_constant() {
    let s = State::new(1);
    assert_eq!(s.do_stuff(0), 23);
    assert_eq!(s.do_stuff(-100), 23);
}

#[test]
fn gs_adds_and_returns_the_new_value() {
    let mut s = State::new(10);
    assert_eq!(s.gs(5), 15);
    assert_eq!(s.val, 15);
    assert_eq!(s.gs(-20), -5);
    assert_eq!(s.val, -5);
}

#[test]
fn small_arithmetic_functions() {
    assert_eq!(a(1), 4);
    assert_eq!(a(u32::MAX - 3), u32::MAX);
    assert_eq!(b(3), 6);
    assert_eq!(b(0), 0);
    assert_eq!(c(), 4);
}

#[test]
fn h_keeps_23_and_moves_others_up() {
    assert_eq!(h(23), 23);
    assert_eq!(h(5), 6);
    assert_eq!(h(-1), 0);
    assert_eq!(h(22), 23);
}

#[test]
fn check_is_below_23() {
    assert!(check(22));
    assert!(!check(23));
    assert!(check(i32::MIN));
}

#[test]
fn host_id_duplicates() {
    assert_eq!(host_id(true), (true, true));
    assert_eq!(host_id(false), (false, false));
}

#[test]
fn iter_i32_is_one_to_ten() {
    assert_eq!(iter_i32(), vec![1, 2, 3, 4, 5, 6, 7, 8, 9, 10]);
    assert_eq!(make_unit(), ());
}

#[test]
fn f_s_subtracts() {
    assert_eq!(f_s(State::new(10), 3), 7);
    assert_eq!(f_s(State::new(-2), 5), -7);
}

#[test]
fn sequential_computation_adds_sixty() {
    assert_eq!(pipe_dataflow::input_example::test(42), 102);
    assert_eq!(pipe_dataflow::input_example::test(0), 60);
    assert_eq!(pipe_dataflow::input_example::test(i32::MAX - 60), i32::MAX);
    assert_eq!(input_fun(42), 102);
    assert_eq!(input_fun(-60), 0);
}
