use encrypted_chat::fib;

#[test]
fn fib_below_two_is_the_argument() {
    assert_eq!(fib(0), 0);
    assert_eq!(fib(1), 1);
}

#[test]
fn fib_takes_as_many_steps_as_its_argument() {
    assert_eq!(fib(2), 2);
    assert_eq!(fib(3), 3);
    assert_eq!(fib(4), 5);
    assert_eq!(fib(10), 89);
}

#[test]
fn fib_of_fifty() {
    assert_eq!(fib(50), 20365011074);
}

#[test]
fn fib_largest_argument() {
    assert_eq!(fib(92), 12200160415121876738);
}
