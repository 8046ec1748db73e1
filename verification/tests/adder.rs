use adder::add;
use adder::greeting;
use adder::Guess;
use adder::GuessError;

#[test]
fn exploration() {
    let result = add(2, 2);
    assert_eq!(result, 4);
}

#[test]
fn it_works() -> Result<(), String> {
    if 2 + 2 == 4 {
        Ok(())
    } else {
        Err(String::from("two plus two does not equal four"))
    }
}

#[test]
fn greeting_contains_name() {
    let result = greeting("Carol");
    assert!(
        result.contains("Carol"),
        "Greeting did not contain name, value was `{}`",
        result
    );
}

#[test]
fn greeting_exact_text() {
    assert_eq!(greeting("Carol"), "Hello Carol!");
    assert_eq!(greeting(""), "Hello !");
}

#[test]
fn add_large_values() {
    assert_eq!(add(usize::MAX - 1, 1), usize::MAX);
    assert_eq!(add(0, 0), 0);
}

#[test]
fn guess_in_range_preserves_value() {
    for v in 1..=100 {
        let g = Guess::try_new(v).unwrap();
        assert_eq!(g.value(), v);
        let h = Guess::new(v);
        assert_eq!(h.value(), v);
    }
}

#[test]
fn greater_than_100() {
    let e = Guess::try_new(200).unwrap_err();
    assert_eq!(e, GuessError::TooLarge);
    assert!(e.message().contains("less than or equal to 100"));
}

#[test]
fn less_than_100() {
    let e = Guess::try_new(0).unwrap_err();
    assert_eq!(e, GuessError::TooSmall);
    assert!(e.message().contains("greater than or equal to 1"));
}

#[test]
fn guess_boundaries() {
    assert_eq!(Guess::try_new(1).unwrap().value(), 1);
    assert_eq!(Guess::try_new(100).unwrap().value(), 100);
    assert_eq!(Guess::try_new(0).unwrap_err(), GuessError::TooSmall);
    assert_eq!(Guess::try_new(101).unwrap_err(), GuessError::TooLarge);
    assert_eq!(Guess::try_new(i32::MIN).unwrap_err(), GuessError::TooSmall);
    assert_eq!(Guess::try_new(i32::MAX).unwrap_err(), GuessError::TooLarge);
}

#[test]
fn guess_error_messages_exact() {
    assert_eq!(
        GuessError::TooSmall.message(),
        "Guess value must be greater than or equal to 1."
    );
    assert_eq!(
        GuessError::TooLarge.message(),
        "Guess value must be less than or equal to 100."
    );
}
