//! Interpreting a user's raw answer to a question: yes/no answers, free
//! strings with optional validation, integers, and numbered choices.

use vstd::prelude::*;

use crate::engine::{regex_check, regex_is_match, regex_matches, regex_valid};
use crate::errors::{new_error, Error, ErrorKind};
use crate::text::{eq_str, parse_i64, parse_i64_ok, parse_i64_val, parse_usize, parse_usize_ok,
    parse_usize_val};
use crate::value::{Value, ValueView};

verus! {

/// The message rejecting a choice or yes/no answer.
pub open spec fn invalid_choice_msg(input: Seq<char>) -> Seq<char> {
    "Invalid choice: '"@ + input + "'\n"@
}

/// The message rejecting an integer answer.
pub open spec fn invalid_integer_msg(input: Seq<char>) -> Seq<char> {
    "Invalid integer: '"@ + input + "'\n"@
}

/// The message rejecting a string that fails its validation regex.
pub open spec fn regex_fail_msg(pattern: Seq<char>) -> Seq<char> {
    "The value needs to pass the regex: "@ + pattern + "\n"@
}

fn invalid_choice_error(input: &str) -> (r: Error)
    ensures
        r.kind matches ErrorKind::InvalidInput { msg } && msg@ == invalid_choice_msg(input@),
{
    let mut msg = String::new();
    msg.append("Invalid choice: '");
    msg.append(input);
    msg.append("'\n");
    proof {
        assert(msg@ =~= invalid_choice_msg(input@));
    }
    new_error(ErrorKind::InvalidInput { msg })
}

/// How a yes/no answer is read: an empty answer takes the default.
pub open spec fn bool_input_val(s: Seq<char>, default: bool) -> Option<bool> {
    if s == "y"@ || s == "Y"@ || s == "yes"@ || s == "YES"@ || s == "true"@ {
        Some(true)
    } else if s == "n"@ || s == "N"@ || s == "no"@ || s == "NO"@ || s == "false"@ {
        Some(false)
    } else if s.len() == 0 {
        Some(default)
    } else {
        None
    }
}

/// Interpret a yes/no answer from the user.
pub fn interpret_bool(input: &str, default: bool) -> (r: Result<bool, Error>)
    ensures
        match r {
            Ok(b) => bool_input_val(input@, default) == Some(b),
            Err(e) => bool_input_val(input@, default) is None && (e.kind
                matches ErrorKind::InvalidInput { msg } && msg@ == invalid_choice_msg(input@)),
        },
{
    if eq_str(input, "y") || eq_str(input, "Y") || eq_str(input, "yes") || eq_str(input, "YES")
        || eq_str(input, "true") {
        Ok(true)
    } else if eq_str(input, "n") || eq_str(input, "N") || eq_str(input, "no") || eq_str(
        input,
        "NO",
    ) || eq_str(input, "false") {
        Ok(false)
    } else if input.is_empty() {
        Ok(default)
    } else {
        Err(invalid_choice_error(input))
    }
}

/// How a free-string answer is read against an optional validation regex:
/// an empty answer takes the default, which is accepted as given; any other
/// answer must pass the regex when one is set.
pub open spec fn string_input_result(
    input: Seq<char>,
    default: Seq<char>,
    validation: Option<Seq<char>>,
    r: Result<String, Error>,
) -> bool {
    match r {
        Ok(s) => {
            &&& (if input.len() == 0 {
                s@ == default
            } else {
                s@ == input
            })
            &&& (input.len() > 0 && validation is Some) ==> regex_matches(
                validation->Some_0,
                input,
            )
        },
        Err(e) => {
            &&& input.len() > 0
            &&& validation is Some
            &&& !regex_matches(validation->Some_0, input)
            &&& e.kind matches ErrorKind::InvalidInput { msg } && msg@ == regex_fail_msg(
                validation->Some_0,
            )
        },
    }
}

/// The view of an optional pattern.
pub open spec fn opt_pattern_view(o: Option<String>) -> Option<Seq<char>> {
    match o {
        Some(s) => Some(s@),
        None => None,
    }
}

/// Interpret a free-string answer from the user.  The validation regex, when
/// set, must be known to compile; `interpret_string_checked` establishes
/// that from the pattern text alone.
pub fn interpret_string(input: &str, default: &str, validation: &Option<String>) -> (r: Result<
    String,
    Error,
>)
    requires
        validation matches Some(p) ==> regex_valid(p@),
    ensures
        string_input_result(input@, default@, opt_pattern_view(*validation), r),
{
    if input.is_empty() {
        return Ok(default.to_owned());
    }
    match validation {
        Some(pattern) => {
            if regex_is_match(pattern.as_str(), input) {
                Ok(input.to_owned())
            } else {
                let mut msg = String::new();
                msg.append("The value needs to pass the regex: ");
                msg.append(pattern.as_str());
                msg.append("\n");
                proof {
                    assert(msg@ =~= regex_fail_msg(pattern@));
                }
                Err(new_error(ErrorKind::InvalidInput { msg }))
            }
        },
        None => Ok(input.to_owned()),
    }
}

/// Interpret a free-string answer, first checking that the validation
/// pattern compiles: a pattern that does not gives back nothing instead of
/// an answer.
pub fn interpret_string_checked(input: &str, default: &str, validation: &Option<String>) -> (r:
    Option<Result<String, Error>>)
    ensures
        match r {
            None => validation matches Some(p) && !regex_valid(p@),
            Some(res) => string_input_result(input@, default@, opt_pattern_view(*validation), res),
        },
{
    match validation {
        Some(pattern) => {
            if !regex_check(pattern.as_str()) {
                return None;
            }
        },
        None => {},
    }
    Some(interpret_string(input, default, validation))
}

/// How an integer answer is read: an empty answer takes the default.
pub open spec fn integer_input_val(s: Seq<char>, default: int) -> Option<int> {
    if s.len() == 0 {
        Some(default)
    } else if parse_i64_ok(s) {
        Some(parse_i64_val(s))
    } else {
        None
    }
}

/// Interpret an integer answer from the user.
pub fn interpret_integer(input: &str, default: i64) -> (r: Result<i64, Error>)
    ensures
        match r {
            Ok(v) => integer_input_val(input@, default as int) == Some(v as int),
            Err(e) => integer_input_val(input@, default as int) is None && (e.kind
                matches ErrorKind::InvalidInput { msg } && msg@ == invalid_integer_msg(input@)),
        },
{
    if input.is_empty() {
        return Ok(default);
    }
    match parse_i64(input) {
        Some(v) => Ok(v),
        None => {
            let mut msg = String::new();
            msg.append("Invalid integer: '");
            msg.append(input);
            msg.append("'\n");
            proof {
                assert(msg@ =~= invalid_integer_msg(input@));
            }
            Err(new_error(ErrorKind::InvalidInput { msg }))
        },
    }
}

/// The views of a list of values.
pub open spec fn values_view(s: Seq<Value>) -> Seq<ValueView> {
    Seq::new(s.len(), |i: int| s[i]@)
}

/// How a numbered-choice answer is read: an empty answer takes the default;
/// otherwise the answer must be a number between 1 and the number of
/// choices, picking the choice with that (one-based) number.
pub open spec fn choice_input_val(
    s: Seq<char>,
    default: ValueView,
    choices: Seq<ValueView>,
) -> Option<ValueView> {
    if s.len() == 0 {
        Some(default)
    } else if parse_usize_ok(s) && 1 <= parse_usize_val(s) && parse_usize_val(s) <= choices.len() {
        Some(choices[parse_usize_val(s) - 1])
    } else {
        None
    }
}

/// Interpret a choice between various options.
pub fn interpret_choices(input: &str, default: &Value, choices: &[Value]) -> (r: Result<
    Value,
    Error,
>)
    ensures
        match r {
            Ok(v) => choice_input_val(input@, default@, values_view(choices@)) == Some(v@),
            Err(e) => choice_input_val(input@, default@, values_view(choices@)) is None && (e.kind
                matches ErrorKind::InvalidInput { msg } && msg@ == invalid_choice_msg(input@)),
        },
{
    if input.is_empty() {
        return Ok(default.duplicate());
    }
    match parse_usize(input) {
        Some(num) => {
            if num == 0 || num > choices.len() {
                Err(invalid_choice_error(input))
            } else {
                Ok(choices[num - 1].duplicate())
            }
        },
        None => Err(invalid_choice_error(input)),
    }
}

} // verus!
