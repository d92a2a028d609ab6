use kickstart::errors::ErrorKind;
use kickstart::interpret::{
    interpret_bool, interpret_choices, interpret_integer, interpret_string,
    interpret_string_checked,
};
use kickstart::value::Value;

#[test]
fn bool_answers_are_recognised() {
    assert_eq!(interpret_bool("y", false).unwrap(), true);
    assert_eq!(interpret_bool("Y", false).unwrap(), true);
    assert_eq!(interpret_bool("yes", false).unwrap(), true);
    assert_eq!(interpret_bool("YES", false).unwrap(), true);
    assert_eq!(interpret_bool("true", false).unwrap(), true);
    assert_eq!(interpret_bool("n", true).unwrap(), false);
    assert_eq!(interpret_bool("N", true).unwrap(), false);
    assert_eq!(interpret_bool("no", true).unwrap(), false);
    assert_eq!(interpret_bool("NO", true).unwrap(), false);
    assert_eq!(interpret_bool("false", true).unwrap(), false);
    assert_eq!(interpret_bool("", true).unwrap(), true);
    assert_eq!(interpret_bool("", false).unwrap(), false);
}

#[test]
fn bad_bool_answer_is_an_invalid_input() {
    let err = interpret_bool("maybe", true).unwrap_err();
    match err.kind {
        ErrorKind::InvalidInput { msg } => assert_eq!(msg, "Invalid choice: 'maybe'\n"),
        _ => panic!("wrong error kind"),
    }
}

#[test]
fn empty_string_answer_takes_the_default() {
    assert_eq!(interpret_string("", "fallback", &None).unwrap(), "fallback");
    assert_eq!(interpret_string("typed", "fallback", &None).unwrap(), "typed");
}

#[test]
fn string_answer_must_pass_the_regex() {
    let validation = Some("^[0-9]+$".to_string());
    assert_eq!(interpret_string("123", "0", &validation).unwrap(), "123");
    let err = interpret_string("abc", "0", &validation).unwrap_err();
    match err.kind {
        ErrorKind::InvalidInput { msg } => {
            assert_eq!(msg, "The value needs to pass the regex: ^[0-9]+$\n")
        },
        _ => panic!("wrong error kind"),
    }
}

#[test]
fn checked_string_answer_rejects_a_broken_regex() {
    let broken = Some("**[0-9]++".to_string());
    assert!(interpret_string_checked("abc", "0", &broken).is_none());
    let fine = Some("^[a-z]+$".to_string());
    let res = interpret_string_checked("abc", "0", &fine).unwrap();
    assert_eq!(res.unwrap(), "abc");
}

#[test]
fn integer_answers_are_parsed() {
    assert_eq!(interpret_integer("42", 7).unwrap(), 42);
    assert_eq!(interpret_integer("", 7).unwrap(), 7);
    assert_eq!(interpret_integer("-13", 7).unwrap(), -13);
    assert_eq!(interpret_integer("+5", 7).unwrap(), 5);
    assert_eq!(interpret_integer("9223372036854775807", 0).unwrap(), i64::MAX);
    assert_eq!(interpret_integer("-9223372036854775808", 0).unwrap(), i64::MIN);
}

#[test]
fn bad_integer_answer_is_an_invalid_input() {
    for bad in ["abc", "1.5", "9223372036854775808", " 3", "-"] {
        let err = interpret_integer(bad, 0).unwrap_err();
        match err.kind {
            ErrorKind::InvalidInput { msg } => {
                assert_eq!(msg, format!("Invalid integer: '{}'\n", bad))
            },
            _ => panic!("wrong error kind"),
        }
    }
}

#[test]
fn choice_answers_pick_by_number() {
    let choices = vec![
        Value::String("postgres".to_string()),
        Value::String("mysql".to_string()),
    ];
    let default = Value::String("postgres".to_string());
    assert_eq!(
        interpret_choices("2", &default, &choices).unwrap(),
        Value::String("mysql".to_string())
    );
    assert_eq!(
        interpret_choices("1", &default, &choices).unwrap(),
        Value::String("postgres".to_string())
    );
    assert_eq!(
        interpret_choices("", &default, &choices).unwrap(),
        Value::String("postgres".to_string())
    );
}

#[test]
fn out_of_range_choice_is_an_invalid_input() {
    let choices = vec![
        Value::String("postgres".to_string()),
        Value::String("mysql".to_string()),
    ];
    let default = Value::String("postgres".to_string());
    for bad in ["3", "0", "x", "-1"] {
        let err = interpret_choices(bad, &default, &choices).unwrap_err();
        match err.kind {
            ErrorKind::InvalidInput { msg } => {
                assert_eq!(msg, format!("Invalid choice: '{}'\n", bad))
            },
            _ => panic!("wrong error kind"),
        }
    }
}
