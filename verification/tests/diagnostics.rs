//! Recovery of the calling function's name for log labels.

use remoteauth::diagnostics::function_name;

/// Checks recovery of the calling function's name from the path of an item
/// `f` declared inside it.
#[test]
fn test_function_name() {
    let name = "diagnostics::test_function_name::f";
    let tail = function_name(name.as_bytes());
    assert_eq!(std::str::from_utf8(&tail).unwrap(), "test_function_name");
}

#[test]
fn function_name_without_separator_keeps_the_trimmed_path() {
    let tail = function_name(b"lonely::f");
    assert_eq!(tail, b"lonely".to_vec());
}

#[test]
fn function_name_of_the_shortest_path_is_empty() {
    let tail = function_name(b"::f");
    assert_eq!(tail, b"".to_vec());
}

#[test]
fn function_name_takes_the_last_separator() {
    let tail = function_name(b"a::b::c::caller::f");
    assert_eq!(tail, b"caller".to_vec());
}
