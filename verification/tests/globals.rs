use yaslapi::globals::{GlobalError, Globals};
use yaslapi::names::{NameHandle, NameRegistry};

#[test]
fn a_name_is_declared_once() {
    let mut registry = NameRegistry::new();
    let mut globals = Globals::new();
    assert_eq!(globals.declare(&mut registry, "x"), Ok(NameHandle { slot: 0 }));
    assert!(globals.is_declared("x"));
    assert_eq!(globals.declare(&mut registry, "x"), Err(GlobalError::AlreadyDeclared));
    assert_eq!(globals.declare(&mut registry, "y"), Ok(NameHandle { slot: 1 }));
    assert_eq!(globals.declare(&mut registry, "x"), Err(GlobalError::AlreadyDeclared));
    assert!(globals.is_declared("x"));
    assert!(globals.is_declared("y"));
    assert_eq!(registry.len(), 2);
}

#[test]
fn a_malformed_name_is_not_declared() {
    let mut registry = NameRegistry::new();
    let mut globals = Globals::new();
    assert_eq!(globals.declare(&mut registry, "1x"), Err(GlobalError::InvalidIdentifier));
    assert_eq!(globals.declare(&mut registry, ""), Err(GlobalError::InvalidIdentifier));
    assert!(!globals.is_declared("1x"));
    assert_eq!(registry.len(), 0);
}

#[test]
fn two_interpreters_share_the_names_and_not_the_variables() {
    let mut registry = NameRegistry::new();
    let mut one = Globals::new();
    let mut two = Globals::new();
    let first = one.declare(&mut registry, "answer").unwrap();
    let second = two.declare(&mut registry, "answer").unwrap();
    assert_eq!(first, second);
    assert_eq!(registry.len(), 1);
    assert!(!Globals::new().is_declared("answer"));
}
