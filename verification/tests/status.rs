use yaslapi::status::{state_result, StateError, StateSuccess, Type};

#[test]
fn the_codes_of_the_results() {
    assert_eq!(i32::from(StateSuccess::Generic), 0);
    assert_eq!(i32::from(StateSuccess::ModuleSuccess), 1);
    assert_eq!(i32::from(StateError::Generic), 2);
    assert_eq!(i32::from(StateError::InitError), 3);
    assert_eq!(i32::from(StateError::SyntaxError), 4);
    assert_eq!(i32::from(StateError::TypeError), 5);
    assert_eq!(i32::from(StateError::DivideByZeroError), 6);
    assert_eq!(i32::from(StateError::ValueError), 7);
    assert_eq!(i32::from(StateError::TooManyVarError), 8);
    assert_eq!(i32::from(StateError::PlatformNotSupp), 9);
    assert_eq!(i32::from(StateError::AssertError), 10);
    assert_eq!(i32::from(StateError::StackOverflowError), 11);
}

#[test]
fn the_codes_of_the_types() {
    let types = [
        Type::Undef,
        Type::Float,
        Type::Int,
        Type::Bool,
        Type::Str,
        Type::List,
        Type::Table,
        Type::Fn,
        Type::Closure,
        Type::CFn,
        Type::UserPtr,
        Type::UserData,
    ];
    for (code, t) in types.iter().enumerate() {
        assert_eq!(i32::from(*t), code as i32);
        assert_eq!(Type::from_code(code as i32), Some(*t));
    }
    assert_eq!(Type::from_code(-1), None);
    assert_eq!(Type::from_code(12), None);
}

#[test]
fn a_code_is_a_success_or_an_error() {
    assert_eq!(state_result(0), Ok(StateSuccess::Generic));
    assert_eq!(state_result(1), Ok(StateSuccess::ModuleSuccess));
    assert_eq!(state_result(2), Err(StateError::Generic));
    assert_eq!(state_result(4), Err(StateError::SyntaxError));
    assert_eq!(state_result(5), Err(StateError::TypeError));
    assert_eq!(state_result(11), Err(StateError::StackOverflowError));
    for code in 0..12 {
        let back = match state_result(code) {
            Ok(s) => i32::from(s),
            Err(e) => i32::from(e),
        };
        assert_eq!(back, code);
    }
}

#[test]
fn a_code_outside_of_a_kind_is_none_of_it() {
    assert_eq!(StateSuccess::from_code(-1), None);
    assert_eq!(StateSuccess::from_code(0), Some(StateSuccess::Generic));
    assert_eq!(StateSuccess::from_code(2), None);
    assert_eq!(StateError::from_code(1), None);
    assert_eq!(StateError::from_code(2), Some(StateError::Generic));
    assert_eq!(StateError::from_code(12), None);
}
